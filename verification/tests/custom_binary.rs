use backstaff::geometry::Vec3;
use backstaff::io::Verbose;
use backstaff::tracing::field_line::custom_binary::reading::read_field_line_data_from_custom_binary;
use backstaff::tracing::field_line::custom_binary::write_field_line_data_as_custom_binary;
use backstaff::tracing::field_line::FieldLineSet3;
use backstaff::tracing::field_line::FieldLineSetProperties3;

fn bits(values: &[f64]) -> Vec<u64> {
    values.iter().map(|value| value.to_bits()).collect()
}

fn vector(x: f64, y: f64, z: f64) -> Vec3<u64> {
    Vec3::new(x.to_bits(), y.to_bits(), z.to_bits())
}

fn words(bytes: &[u8]) -> Vec<u64> {
    assert_eq!(bytes.len() % 8, 0);
    bytes
        .chunks(8)
        .map(|chunk| {
            let mut word = [0u8; 8];
            word.copy_from_slice(chunk);
            u64::from_le_bytes(word)
        })
        .collect()
}

fn floats(bytes: &[u8]) -> Vec<f64> {
    words(bytes).into_iter().map(f64::from_bits).collect()
}

fn two_field_lines() -> FieldLineSetProperties3 {
    FieldLineSetProperties3 {
        number_of_field_lines: 2,
        fixed_scalar_values: vec![
            ("x0".to_string(), bits(&[0.5, 1.5])),
            ("y0".to_string(), bits(&[0.25, 1.25])),
        ],
        fixed_vector_values: vec![(
            "b0".to_string(),
            vec![vector(1.0, 2.0, 3.0), vector(4.0, 5.0, 6.0)],
        )],
        varying_scalar_values: vec![
            (
                "x".to_string(),
                vec![bits(&[0.5, 0.6, 0.7]), bits(&[1.5, 1.6])],
            ),
            (
                "r".to_string(),
                vec![bits(&[10.0, 11.0, 12.0]), bits(&[20.0, 21.0])],
            ),
        ],
        varying_vector_values: vec![(
            "v".to_string(),
            vec![
                vec![
                    vector(0.1, 0.2, 0.3),
                    vector(0.4, 0.5, 0.6),
                    vector(0.7, 0.8, 0.9),
                ],
                vec![vector(-1.0, -2.0, -3.0), vector(-4.0, -5.0, -6.0)],
            ],
        )],
    }
}

#[test]
fn custom_binary_has_the_documented_layout() {
    let mut writer = Vec::new();
    write_field_line_data_as_custom_binary(
        &mut writer,
        &vector(-1.0, -2.0, -3.0),
        &vector(1.0, 2.0, 3.0),
        two_field_lines(),
    );

    let header = words(&writer[..56]);
    assert_eq!(header, vec![8, 2, 5, 2, 1, 2, 1]);

    let bounds = floats(&writer[56..104]);
    assert_eq!(bounds, vec![-1.0, 1.0, -2.0, 2.0, -3.0, 3.0]);

    let names = b"x0\ny0\nb0\nx\nr\nv\n";
    let names_end = 104 + names.len();
    assert_eq!(&writer[104..names_end], &names[..]);

    let offsets_end = names_end + 2 * 8;
    assert_eq!(words(&writer[names_end..offsets_end]), vec![0, 3]);

    let fixed_scalars_end = offsets_end + 2 * 2 * 8;
    assert_eq!(
        floats(&writer[offsets_end..fixed_scalars_end]),
        vec![0.5, 1.5, 0.25, 1.25]
    );

    let fixed_vectors_end = fixed_scalars_end + 2 * 3 * 8;
    assert_eq!(
        floats(&writer[fixed_scalars_end..fixed_vectors_end]),
        vec![1.0, 2.0, 3.0, 4.0, 5.0, 6.0]
    );

    let varying_scalars_end = fixed_vectors_end + 2 * 5 * 8;
    assert_eq!(
        floats(&writer[fixed_vectors_end..varying_scalars_end]),
        vec![0.5, 0.6, 0.7, 1.5, 1.6, 10.0, 11.0, 12.0, 20.0, 21.0]
    );

    assert_eq!(
        floats(&writer[varying_scalars_end..]),
        vec![0.1, 0.2, 0.3, 0.4, 0.5, 0.6, 0.7, 0.8, 0.9, -1.0, -2.0, -3.0, -4.0, -5.0, -6.0]
    );
    assert_eq!(writer.len(), varying_scalars_end + 5 * 3 * 8);
}

#[test]
fn custom_binary_is_appended_to_what_the_writer_holds() {
    let mut writer = vec![0xAAu8, 0xBB];
    write_field_line_data_as_custom_binary(
        &mut writer,
        &vector(0.0, 0.0, 0.0),
        &vector(1.0, 1.0, 1.0),
        two_field_lines(),
    );
    let mut alone = Vec::new();
    write_field_line_data_as_custom_binary(
        &mut alone,
        &vector(0.0, 0.0, 0.0),
        &vector(1.0, 1.0, 1.0),
        two_field_lines(),
    );
    assert_eq!(&writer[..2], &[0xAAu8, 0xBB][..]);
    assert_eq!(&writer[2..], &alone[..]);
}

#[test]
fn custom_binary_of_no_data_is_header_bounds_and_a_newline() {
    let mut writer = Vec::new();
    write_field_line_data_as_custom_binary(
        &mut writer,
        &vector(0.0, 0.0, 0.0),
        &vector(0.0, 0.0, 0.0),
        FieldLineSetProperties3::default(),
    );
    assert_eq!(writer.len(), 7 * 8 + 6 * 8 + 1);
    assert_eq!(words(&writer[..56]), vec![8, 0, 0, 0, 0, 0, 0]);
    assert_eq!(writer[104], b'\n');
}

#[test]
fn custom_binary_without_varying_values_starts_every_line_at_zero() {
    let properties = FieldLineSetProperties3 {
        number_of_field_lines: 3,
        fixed_scalar_values: vec![("x0".to_string(), bits(&[1.0, 2.0, 3.0]))],
        fixed_vector_values: Vec::new(),
        varying_scalar_values: Vec::new(),
        varying_vector_values: Vec::new(),
    };
    let mut writer = Vec::new();
    write_field_line_data_as_custom_binary(
        &mut writer,
        &vector(0.0, 0.0, 0.0),
        &vector(1.0, 1.0, 1.0),
        properties,
    );
    assert_eq!(words(&writer[..56]), vec![8, 3, 0, 1, 0, 0, 0]);
    assert_eq!(&writer[104..107], b"x0\n");
    assert_eq!(words(&writer[107..131]), vec![0, 0, 0]);
    assert_eq!(floats(&writer[131..]), vec![1.0, 2.0, 3.0]);
}

#[test]
fn custom_binary_takes_the_line_lengths_from_the_vectors_where_no_scalar_varies() {
    let properties = FieldLineSetProperties3 {
        number_of_field_lines: 2,
        fixed_scalar_values: Vec::new(),
        fixed_vector_values: Vec::new(),
        varying_scalar_values: Vec::new(),
        varying_vector_values: vec![(
            "v".to_string(),
            vec![
                vec![vector(1.0, 2.0, 3.0)],
                vec![vector(4.0, 5.0, 6.0), vector(7.0, 8.0, 9.0)],
            ],
        )],
    };
    assert_eq!(properties.line_lengths(), vec![1, 2]);
    assert_eq!(properties.number_of_field_line_elements(), Some(3));
    assert_eq!(properties.start_indices_of_field_line_elements(), vec![0, 1]);
    let mut writer = Vec::new();
    write_field_line_data_as_custom_binary(
        &mut writer,
        &vector(0.0, 0.0, 0.0),
        &vector(1.0, 1.0, 1.0),
        properties,
    );
    assert_eq!(words(&writer[..56]), vec![8, 2, 3, 0, 0, 0, 1]);
    assert_eq!(&writer[104..106], b"v\n");
    assert_eq!(words(&writer[106..122]), vec![0, 1]);
    assert_eq!(
        floats(&writer[122..]),
        vec![1.0, 2.0, 3.0, 4.0, 5.0, 6.0, 7.0, 8.0, 9.0]
    );
}

#[test]
fn custom_binary_writes_names_in_utf8() {
    let properties = FieldLineSetProperties3 {
        number_of_field_lines: 1,
        fixed_scalar_values: vec![("βeta".to_string(), bits(&[1.0]))],
        fixed_vector_values: Vec::new(),
        varying_scalar_values: Vec::new(),
        varying_vector_values: Vec::new(),
    };
    let mut writer = Vec::new();
    write_field_line_data_as_custom_binary(
        &mut writer,
        &vector(0.0, 0.0, 0.0),
        &vector(1.0, 1.0, 1.0),
        properties,
    );
    let name = "βeta\n".as_bytes();
    assert_eq!(&writer[104..104 + name.len()], name);
}

#[test]
fn field_line_set_writes_what_the_free_function_writes() {
    let lower_bounds = vector(-1.0, -2.0, -3.0);
    let upper_bounds = vector(1.0, 2.0, 3.0);
    let mut expected = Vec::new();
    write_field_line_data_as_custom_binary(
        &mut expected,
        &lower_bounds,
        &upper_bounds,
        two_field_lines(),
    );
    let set = FieldLineSet3::new(lower_bounds, upper_bounds, two_field_lines(), Verbose::No);
    assert_eq!(set.number_of_field_lines(), 2);
    assert_eq!(set.verbose(), Verbose::No);
    let mut by_reference = Vec::new();
    set.write_as_custom_binary(&mut by_reference);
    assert_eq!(by_reference, expected);
    let mut by_value = Vec::new();
    set.write_into_custom_binary(&mut by_value);
    assert_eq!(by_value, expected);
}

fn written(properties: FieldLineSetProperties3) -> Vec<u8> {
    let mut writer = Vec::new();
    write_field_line_data_as_custom_binary(
        &mut writer,
        &vector(-1.0, -2.0, -3.0),
        &vector(1.0, 2.0, 3.0),
        properties,
    );
    writer
}

fn assert_same_data(read: &FieldLineSetProperties3, expected: &FieldLineSetProperties3) {
    assert_eq!(read.number_of_field_lines, expected.number_of_field_lines);
    assert_eq!(read.fixed_scalar_values, expected.fixed_scalar_values);
    assert_eq!(read.fixed_vector_values, expected.fixed_vector_values);
    assert_eq!(read.varying_scalar_values, expected.varying_scalar_values);
    assert_eq!(read.varying_vector_values, expected.varying_vector_values);
}

fn set_word(bytes: &mut [u8], position: usize, word: u64) {
    bytes[position..position + 8].copy_from_slice(&word.to_le_bytes());
}

#[test]
fn what_was_written_is_read_back_bit_for_bit() {
    let mut properties = two_field_lines();
    properties.insert_fixed_scalar_values(
        "odd".to_string(),
        vec![f64::NAN.to_bits(), (-0.0f64).to_bits()],
    );
    properties.insert_varying_scalar_values(
        "tiny".to_string(),
        vec![
            vec![5e-324f64.to_bits(), f64::MAX.to_bits(), f64::INFINITY.to_bits()],
            vec![0x7FF8_0000_0000_0001, 0xFFFF_FFFF_FFFF_FFFF],
        ],
    );
    let bytes = written(properties.clone());
    let (lower_bounds, upper_bounds, read) =
        read_field_line_data_from_custom_binary(&bytes).unwrap();
    assert_eq!(lower_bounds, vector(-1.0, -2.0, -3.0));
    assert_eq!(upper_bounds, vector(1.0, 2.0, 3.0));
    assert_same_data(&read, &properties);
    assert_eq!(written(read), bytes);
}

#[test]
fn data_without_columns_or_without_varying_values_is_read_back() {
    let bytes = written(FieldLineSetProperties3::default());
    let (_, _, read) = read_field_line_data_from_custom_binary(&bytes).unwrap();
    assert_same_data(&read, &FieldLineSetProperties3::default());

    let properties = FieldLineSetProperties3 {
        number_of_field_lines: 3,
        fixed_scalar_values: vec![("x0".to_string(), bits(&[1.0, 2.0, 3.0]))],
        fixed_vector_values: vec![(
            "b0".to_string(),
            vec![vector(1.0, 2.0, 3.0), vector(4.0, 5.0, 6.0), vector(7.0, 8.0, 9.0)],
        )],
        varying_scalar_values: Vec::new(),
        varying_vector_values: Vec::new(),
    };
    let (_, _, read) = read_field_line_data_from_custom_binary(&written(properties.clone())).unwrap();
    assert_same_data(&read, &properties);

    let properties = FieldLineSetProperties3 {
        number_of_field_lines: 2,
        fixed_scalar_values: Vec::new(),
        fixed_vector_values: Vec::new(),
        varying_scalar_values: Vec::new(),
        varying_vector_values: vec![(
            "v".to_string(),
            vec![
                vec![],
                vec![vector(4.0, 5.0, 6.0), vector(7.0, 8.0, 9.0)],
            ],
        )],
    };
    let (_, _, read) = read_field_line_data_from_custom_binary(&written(properties.clone())).unwrap();
    assert_same_data(&read, &properties);
}

#[test]
fn names_in_utf8_are_read_back() {
    let properties = FieldLineSetProperties3 {
        number_of_field_lines: 1,
        fixed_scalar_values: vec![
            ("βeta".to_string(), bits(&[1.0])),
            ("".to_string(), bits(&[2.0])),
            ("a b\t|c|".to_string(), bits(&[3.0])),
        ],
        fixed_vector_values: Vec::new(),
        varying_scalar_values: Vec::new(),
        varying_vector_values: Vec::new(),
    };
    let (_, _, read) = read_field_line_data_from_custom_binary(&written(properties.clone())).unwrap();
    assert_same_data(&read, &properties);
}

#[test]
fn a_name_with_a_newline_is_not_read_back() {
    let properties = FieldLineSetProperties3 {
        number_of_field_lines: 1,
        fixed_scalar_values: vec![("a\nb".to_string(), bits(&[1.0]))],
        fixed_vector_values: Vec::new(),
        varying_scalar_values: Vec::new(),
        varying_vector_values: Vec::new(),
    };
    assert!(read_field_line_data_from_custom_binary(&written(properties)).is_none());
}

#[test]
fn reading_rejects_data_that_is_cut_short_or_goes_on() {
    let bytes = written(two_field_lines());
    for len in 0..bytes.len() {
        assert!(
            read_field_line_data_from_custom_binary(&bytes[..len]).is_none(),
            "{}",
            len
        );
    }
    let mut longer = bytes.clone();
    longer.push(0);
    assert!(read_field_line_data_from_custom_binary(&longer).is_none());
    longer.extend_from_slice(&[0; 7]);
    assert!(read_field_line_data_from_custom_binary(&longer).is_none());
    assert!(read_field_line_data_from_custom_binary(&bytes).is_some());
}

#[test]
fn reading_rejects_numbers_of_another_size() {
    let mut bytes = written(two_field_lines());
    set_word(&mut bytes, 0, 4);
    assert!(read_field_line_data_from_custom_binary(&bytes).is_none());
}

#[test]
fn reading_rejects_a_header_that_does_not_fit_the_data() {
    let bytes = written(two_field_lines());
    for word in 1..7 {
        for value in [0u64, 1, 3, 4, 6, 1 << 32, u64::MAX, u64::MAX / 3, u64::MAX / 8] {
            let mut changed = bytes.clone();
            let position = 8 * word;
            let mut original = [0u8; 8];
            original.copy_from_slice(&bytes[position..position + 8]);
            if u64::from_le_bytes(original) == value {
                continue;
            }
            set_word(&mut changed, position, value);
            assert!(
                read_field_line_data_from_custom_binary(&changed).is_none(),
                "{} {}",
                word,
                value
            );
        }
    }
}

#[test]
fn reading_rejects_start_indices_that_do_not_fit() {
    let bytes = written(two_field_lines());
    let offsets_at = 104 + b"x0\ny0\nb0\nx\nr\nv\n".len();
    let mut changed = bytes.clone();
    set_word(&mut changed, offsets_at, 1);
    assert!(read_field_line_data_from_custom_binary(&changed).is_none());
    let mut changed = bytes.clone();
    set_word(&mut changed, offsets_at + 8, 6);
    assert!(read_field_line_data_from_custom_binary(&changed).is_none());

    let mut changed = bytes.clone();
    set_word(&mut changed, offsets_at + 8, 2);
    let (_, _, read) = read_field_line_data_from_custom_binary(&changed).unwrap();
    assert_eq!(read.line_lengths(), vec![2, 3]);
    assert_eq!(
        read.get_varying_scalar_values("x").unwrap(),
        &vec![bits(&[0.5, 0.6]), bits(&[0.7, 1.5, 1.6])]
    );
    assert!(read.is_well_formed());
}

#[test]
fn reading_rejects_names_that_are_not_utf8_or_occur_twice() {
    let bytes = written(two_field_lines());
    let mut changed = bytes.clone();
    changed[104] = 0xFF;
    assert!(read_field_line_data_from_custom_binary(&changed).is_none());
    let mut changed = bytes.clone();
    changed[107] = b'x';
    assert_eq!(&changed[104..110], b"x0\nx0\n");
    assert!(read_field_line_data_from_custom_binary(&changed).is_none());
    let mut changed = bytes;
    changed[104] = b'b';
    assert_eq!(&changed[104..113], b"b0\ny0\nb0\n");
    assert!(read_field_line_data_from_custom_binary(&changed).is_some());
}
