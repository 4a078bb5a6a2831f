use backstaff::cli::ebeam::simulate::OutputType;
use backstaff::cli::snapshot::corks::is_first_iteration;
use backstaff::cli::snapshot::corks::obtain_sampled_quantity_names;
use backstaff::cli::snapshot::corks::plan_output;
use backstaff::cli::snapshot::corks::should_write_output;
use backstaff::cli::snapshot::corks::OutputStep;
use backstaff::cli::snapshot::corks::OutputType as CorkOutputType;
use backstaff::cli::snapshot::SnapNumInRange;
use backstaff::cli::utils::collect_quantity_names;
use backstaff::cli::utils::format_integer;
use backstaff::cli::utils::get_value_from_constrained_argument_with_custom_default;
use backstaff::cli::utils::get_value_from_required_constrained_argument;
use backstaff::cli::utils::overwrite_mode_from_arguments;
use backstaff::cli::utils::parse_int_limits;
use backstaff::cli::utils::parse_integer;
use backstaff::cli::utils::parse_value_string;
use backstaff::cli::utils::parse_value_strings;
use backstaff::cli::utils::str_eq;
use backstaff::cli::utils::ParseIntegerError;
use backstaff::io::snapshot::extract_magnitude_name;
use backstaff::io::OverwriteMode;

const SAMPLES: [&str; 40] = [
    "",
    "0",
    "7",
    "+7",
    "-7",
    "+",
    "-",
    "++1",
    "--1",
    "+-1",
    "007",
    "-0",
    "+0",
    "12a",
    "a12",
    "1 2",
    " 12",
    "12 ",
    "1_000",
    "1.5",
    "1e3",
    "127",
    "128",
    "-128",
    "-129",
    "255",
    "256",
    "99x",
    "4294967295",
    "4294967296",
    "2147483647",
    "2147483648",
    "-2147483648",
    "-2147483649",
    "18446744073709551615",
    "18446744073709551616",
    "9223372036854775807",
    "9223372036854775808",
    "-9223372036854775808",
    "-9223372036854775809",
];

fn expected<T>(argument_name: &str, value_string: &str) -> Result<T, String>
where
    T: std::str::FromStr,
    <T as std::str::FromStr>::Err: std::fmt::Display,
{
    value_string.parse::<T>().map_err(|err| {
        format!(
            "Error: Could not parse value of {}: {}",
            argument_name, err
        )
    })
}

#[test]
fn parse_value_string_agrees_with_the_standard_parser_for_u8() {
    for sample in SAMPLES {
        assert_eq!(
            parse_value_string::<u8>("count", sample),
            expected::<u8>("count", sample),
            "{:?}",
            sample
        );
    }
}

#[test]
fn parse_value_string_agrees_with_the_standard_parser_for_u32() {
    for sample in SAMPLES {
        assert_eq!(
            parse_value_string::<u32>("max-step-attempts", sample),
            expected::<u32>("max-step-attempts", sample),
            "{:?}",
            sample
        );
    }
}

#[test]
fn parse_value_string_agrees_with_the_standard_parser_for_u64_and_usize() {
    for sample in SAMPLES {
        assert_eq!(
            parse_value_string::<u64>("n", sample),
            expected::<u64>("n", sample),
            "{:?}",
            sample
        );
        assert_eq!(
            parse_value_string::<usize>("n", sample),
            expected::<usize>("n", sample),
            "{:?}",
            sample
        );
    }
}

#[test]
fn parse_value_string_agrees_with_the_standard_parser_for_signed_integers() {
    for sample in SAMPLES {
        assert_eq!(
            parse_value_string::<i8>("n", sample),
            expected::<i8>("n", sample),
            "{:?}",
            sample
        );
        assert_eq!(
            parse_value_string::<i32>("n", sample),
            expected::<i32>("n", sample),
            "{:?}",
            sample
        );
        assert_eq!(
            parse_value_string::<i64>("n", sample),
            expected::<i64>("n", sample),
            "{:?}",
            sample
        );
        assert_eq!(
            parse_value_string::<isize>("n", sample),
            expected::<isize>("n", sample),
            "{:?}",
            sample
        );
    }
}

#[test]
fn parse_value_string_names_the_argument_and_the_reason() {
    assert_eq!(parse_value_string::<u32>("interpolation-order", "3"), Ok(3));
    assert_eq!(
        parse_value_string::<u32>("interpolation-order", "three"),
        Err("Error: Could not parse value of interpolation-order: invalid digit found in string"
            .to_string())
    );
    assert_eq!(
        parse_value_string::<u32>("interpolation-order", ""),
        Err(
            "Error: Could not parse value of interpolation-order: cannot parse integer from empty string"
                .to_string()
        )
    );
    assert_eq!(
        parse_value_string::<u8>("interpolation-order", "300"),
        Err(
            "Error: Could not parse value of interpolation-order: number too large to fit in target type"
                .to_string()
        )
    );
    assert_eq!(
        parse_value_string::<i8>("interpolation-order", "-300"),
        Err(
            "Error: Could not parse value of interpolation-order: number too small to fit in target type"
                .to_string()
        )
    );
}

#[test]
fn parse_integer_reports_each_kind_of_error() {
    assert_eq!(parse_integer("", -10, 10), Err(ParseIntegerError::Empty));
    assert_eq!(parse_integer("-", -10, 10), Err(ParseIntegerError::InvalidDigit));
    assert_eq!(parse_integer("1x", -10, 10), Err(ParseIntegerError::InvalidDigit));
    assert_eq!(parse_integer("11", -10, 10), Err(ParseIntegerError::PosOverflow));
    assert_eq!(parse_integer("-11", -10, 10), Err(ParseIntegerError::NegOverflow));
    assert_eq!(parse_integer("-10", -10, 10), Ok(-10));
    assert_eq!(parse_integer("+10", -10, 10), Ok(10));
    assert_eq!(parse_integer("-1", 0, 10), Err(ParseIntegerError::InvalidDigit));
    assert_eq!(parse_integer("5", 0, 3), Err(ParseIntegerError::PosOverflow));
}

#[test]
fn an_invalid_digit_counts_before_the_overflow_that_it_would_bring() {
    assert_eq!(
        parse_value_string::<u8>("n", "99x"),
        expected::<u8>("n", "99x")
    );
    assert_eq!(
        parse_integer("99x", 0, 255),
        Err(ParseIntegerError::InvalidDigit)
    );
    assert_eq!(
        parse_integer("256x", 0, 255),
        Err(ParseIntegerError::PosOverflow)
    );
}

#[test]
fn parse_value_strings_passes_over_empty_strings() {
    assert_eq!(
        parse_value_strings::<u32>("sizes", &["1", "", "22", "", "333"]),
        Ok(vec![1, 22, 333])
    );
    assert_eq!(parse_value_strings::<u32>("sizes", &[]), Ok(vec![]));
    assert_eq!(parse_value_strings::<u32>("sizes", &["", ""]), Ok(vec![]));
}

#[test]
fn parse_value_strings_fails_with_the_first_string_that_cannot_be_decoded() {
    assert_eq!(
        parse_value_strings::<u8>("sizes", &["1", "x", "300"]),
        Err("Error: Could not parse value of sizes: invalid digit found in string".to_string())
    );
    assert_eq!(
        parse_value_strings::<u8>("sizes", &["1", "300", "x"]),
        Err(
            "Error: Could not parse value of sizes: number too large to fit in target type"
                .to_string()
        )
    );
}

#[test]
fn str_eq_compares_contents() {
    assert!(str_eq("", ""));
    assert!(str_eq("rkf45", "rkf45"));
    assert!(!str_eq("rkf45", "rkf23"));
    assert!(!str_eq("rkf45", "rkf4"));
    assert!(!str_eq("rkf4", "rkf45"));
    assert!(str_eq("Å", "Å"));
    assert!(!str_eq("Å", "A"));
}

#[test]
fn constrained_argument_picks_the_value_beside_the_first_equal_string() {
    let names = ["rkf23", "rkf45", "rkf23"];
    let values = [23, 45, 99];
    assert_eq!(
        get_value_from_required_constrained_argument("rkf23", "stepping-scheme", &names, &values),
        Ok(23)
    );
    assert_eq!(
        get_value_from_required_constrained_argument("rkf45", "stepping-scheme", &names, &values),
        Ok(45)
    );
    assert_eq!(
        get_value_from_required_constrained_argument("peaked", "stepping-scheme", &names, &values),
        Err("Error: Invalid value for stepping-scheme: peaked".to_string())
    );
}

#[test]
fn constrained_argument_ignores_strings_without_a_value_beside_them() {
    let names = ["a", "b", "c"];
    let values = [1, 2];
    assert_eq!(
        get_value_from_required_constrained_argument("b", "letter", &names, &values),
        Ok(2)
    );
    assert_eq!(
        get_value_from_required_constrained_argument("c", "letter", &names, &values),
        Err("Error: Invalid value for letter: c".to_string())
    );
    let no_values: [i32; 0] = [];
    assert_eq!(
        get_value_from_required_constrained_argument("a", "letter", &names, &no_values),
        Err("Error: Invalid value for letter: a".to_string())
    );
}

#[test]
fn constrained_argument_falls_back_to_the_default_without_a_string() {
    let names = ["a", "b"];
    let values = [1, 2];
    assert_eq!(
        get_value_from_constrained_argument_with_custom_default(None, "letter", &names, &values, 7),
        Ok(7)
    );
    assert_eq!(
        get_value_from_constrained_argument_with_custom_default(
            Some("b"),
            "letter",
            &names,
            &values,
            7
        ),
        Ok(2)
    );
    assert_eq!(
        get_value_from_constrained_argument_with_custom_default(
            Some("z"),
            "letter",
            &names,
            &values,
            7
        ),
        Err("Error: Invalid value for letter: z".to_string())
    );
}

#[test]
fn format_integer_agrees_with_the_standard_formatting() {
    let numbers: [i128; 13] = [
        0,
        1,
        9,
        10,
        11,
        99,
        100,
        1234567890,
        -1,
        -10,
        -9223372036854775808,
        18446744073709551615,
        i128::MIN,
    ];
    for number in numbers {
        assert_eq!(format_integer(number), number.to_string());
    }
    assert_eq!(format_integer(i128::MAX), i128::MAX.to_string());
}

#[test]
fn parse_int_limits_reads_numbers_and_keywords() {
    assert_eq!(
        parse_int_limits::<i64>(&["3", "7"], "snap-range", -100, 100),
        Ok((3, 7))
    );
    assert_eq!(
        parse_int_limits::<i64>(&["min", "max"], "snap-range", -100, 100),
        Ok((-100, 100))
    );
    assert_eq!(
        parse_int_limits::<i64>(&["-5", "max"], "snap-range", -100, 100),
        Ok((-5, 100))
    );
    assert_eq!(
        parse_int_limits::<i64>(&["5", "5"], "snap-range", -100, 100),
        Ok((5, 5))
    );
    assert_eq!(
        parse_int_limits::<u32>(&["min", "12"], "snap-range", 2, 20),
        Ok((2, 12))
    );
}

#[test]
fn parse_int_limits_rejects_limits_out_of_order() {
    assert_eq!(
        parse_int_limits::<i64>(&["7", "3"], "snap-range", -100, 100),
        Err(
            "Error: Second value in snap-range (3) must be larger than or equal to first value (7)"
                .to_string()
        )
    );
    assert_eq!(
        parse_int_limits::<i64>(&["max", "min"], "snap-range", -100, 100),
        Err(
            "Error: Second value in snap-range (-100) must be larger than or equal to first value (100)"
                .to_string()
        )
    );
}

#[test]
fn parse_int_limits_rejects_what_is_no_number() {
    assert_eq!(
        parse_int_limits::<i64>(&["low", "3"], "snap-range", -100, 100),
        Err("Error: Could not parse value in snap-range: invalid digit found in string".to_string())
    );
    assert_eq!(
        parse_int_limits::<i64>(&["3", ""], "snap-range", -100, 100),
        Err(
            "Error: Could not parse value in snap-range: cannot parse integer from empty string"
                .to_string()
        )
    );
    assert_eq!(
        parse_int_limits::<i64>(&["9", "3", "x"], "snap-range", -100, 100),
        Err("Error: Could not parse value in snap-range: invalid digit found in string".to_string())
    );
}

#[test]
fn overwrite_mode_follows_the_flags() {
    assert_eq!(overwrite_mode_from_arguments(true, false), OverwriteMode::Always);
    assert_eq!(overwrite_mode_from_arguments(false, true), OverwriteMode::Never);
    assert_eq!(overwrite_mode_from_arguments(false, false), OverwriteMode::Ask);
    assert_eq!(overwrite_mode_from_arguments(true, true), OverwriteMode::Always);
}

#[test]
fn output_type_is_found_by_its_extension() {
    assert_eq!(OutputType::from_extension("fl"), Ok(OutputType::Fl));
    assert_eq!(OutputType::from_extension("pickle"), Ok(OutputType::Pickle));
    assert_eq!(OutputType::from_extension("json"), Ok(OutputType::Json));
    assert_eq!(OutputType::from_extension("h5part"), Ok(OutputType::H5Part));
    for output_type in [
        OutputType::Fl,
        OutputType::Pickle,
        OutputType::Json,
        OutputType::H5Part,
    ] {
        assert_eq!(
            OutputType::from_extension(output_type.extension()),
            Ok(output_type)
        );
    }
    assert_eq!(
        OutputType::valid_extensions_string(),
        "fl, pickle, json, h5part"
    );
}

#[test]
fn output_type_rejects_other_extensions() {
    assert_eq!(
        OutputType::from_extension("txt"),
        Err(
            "Error: Invalid extension txt for output file\nValid extensions are: fl, pickle, json, h5part"
                .to_string()
        )
    );
    assert_eq!(
        OutputType::from_extension("FL"),
        Err(
            "Error: Invalid extension FL for output file\nValid extensions are: fl, pickle, json, h5part"
                .to_string()
        )
    );
    assert_eq!(
        OutputType::from_path(None),
        Err(
            "Error: Missing extension for output file\nValid extensions are: fl, pickle, json, h5part"
                .to_string()
        )
    );
    assert_eq!(OutputType::from_path(Some("json")), Ok(OutputType::Json));
    assert_eq!(
        OutputType::from_path(Some("cork")),
        Err(
            "Error: Invalid extension cork for output file\nValid extensions are: fl, pickle, json, h5part"
                .to_string()
        )
    );
}

#[test]
fn cork_output_type_is_found_by_its_extension() {
    assert_eq!(CorkOutputType::from_extension("cork"), Ok(CorkOutputType::Cork));
    assert_eq!(CorkOutputType::from_extension("pickle"), Ok(CorkOutputType::Pickle));
    assert_eq!(CorkOutputType::from_extension("json"), Ok(CorkOutputType::Json));
    assert_eq!(CorkOutputType::from_extension("h5part"), Ok(CorkOutputType::H5Part));
    assert_eq!(CorkOutputType::Cork.extension(), "cork");
    assert_eq!(
        CorkOutputType::from_extension("fl"),
        Err(
            "Error: Invalid extension fl for output file\nValid extensions are: cork, pickle, json, h5part"
                .to_string()
        )
    );
    assert_eq!(
        CorkOutputType::from_path(None),
        Err(
            "Error: Missing extension for output file\nValid extensions are: cork, pickle, json, h5part"
                .to_string()
        )
    );
}

#[test]
fn corks_are_written_after_the_last_snapshot() {
    assert!(should_write_output(&None));
    assert!(should_write_output(&Some(SnapNumInRange {
        current_offset: 4,
        final_offset: 4
    })));
    assert!(!should_write_output(&Some(SnapNumInRange {
        current_offset: 3,
        final_offset: 4
    })));
    assert!(is_first_iteration::<u8>(&None));
    assert!(!is_first_iteration(&Some(1u8)));
    assert_eq!(plan_output(true, true), OutputStep::CheckAndWrite);
    assert_eq!(plan_output(true, false), OutputStep::CheckAndWrite);
    assert_eq!(plan_output(false, true), OutputStep::CheckOnly);
    assert_eq!(plan_output(false, false), OutputStep::Nothing);
}

#[test]
fn magnitude_names_stand_between_vertical_bars() {
    assert_eq!(extract_magnitude_name("|b|"), Some("b"));
    assert_eq!(extract_magnitude_name("|velocity|"), Some("velocity"));
    assert_eq!(extract_magnitude_name("|β|"), Some("β"));
    assert_eq!(extract_magnitude_name("||"), None);
    assert_eq!(extract_magnitude_name("|"), None);
    assert_eq!(extract_magnitude_name(""), None);
    assert_eq!(extract_magnitude_name("b"), None);
    assert_eq!(extract_magnitude_name("|b"), None);
    assert_eq!(extract_magnitude_name("b|"), None);
    assert_eq!(extract_magnitude_name("|||"), Some("|"));
}

#[test]
fn sampled_quantity_names_are_sorted_by_kind() {
    let scalars = ["r", "|b|", "tg", "|u|"];
    let vectors = ["b", "u"];
    let (scalar_names, vector_names, magnitude_names) =
        obtain_sampled_quantity_names(Some(&scalars), Some(&vectors));
    assert_eq!(scalar_names, vec!["r".to_string(), "tg".to_string()]);
    assert_eq!(vector_names, vec!["b".to_string(), "u".to_string()]);
    assert_eq!(magnitude_names, vec!["b".to_string(), "u".to_string()]);

    let (scalar_names, vector_names, magnitude_names) = obtain_sampled_quantity_names(None, None);
    assert!(scalar_names.is_empty());
    assert!(vector_names.is_empty());
    assert!(magnitude_names.is_empty());
}

#[test]
fn quantity_names_are_collected_in_lowercase_without_the_empty_ones() {
    assert_eq!(
        collect_quantity_names(&["TG", "", "Bx", "ubeam", ""]),
        vec!["tg".to_string(), "bx".to_string(), "ubeam".to_string()]
    );
    assert!(collect_quantity_names(&[]).is_empty());
    assert!(collect_quantity_names(&[""]).is_empty());
}
