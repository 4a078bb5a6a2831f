//! Utilities for decoding command line values.

use crate::io::OverwriteMode;
use crate::num::BoundedInteger;
use vstd::prelude::*;
use vstd::slice::slice_index_get;
use vstd::string::StringExecFns;
use vstd::string::StringSliceAdditionalSpecFns;

verus! {

/// Why a string is not the decimal form of an integer of some type.
#[derive(Debug, Copy, Clone, PartialEq, Eq, Structural)]
pub enum ParseIntegerError {
    /// The string is empty.
    Empty,
    /// The string holds a character that is no digit, or only a sign.
    InvalidDigit,
    /// The number is too large for the type.
    PosOverflow,
    /// The number is too small for the type.
    NegOverflow,
}

impl ParseIntegerError {
    /// The words that describe the error.
    pub open spec fn spec_message(self) -> Seq<char> {
        match self {
            ParseIntegerError::Empty => "cannot parse integer from empty string"@,
            ParseIntegerError::InvalidDigit => "invalid digit found in string"@,
            ParseIntegerError::PosOverflow => "number too large to fit in target type"@,
            ParseIntegerError::NegOverflow => "number too small to fit in target type"@,
        }
    }

    /// The words that describe the error.
    pub fn message(&self) -> (message: &'static str)
        ensures
            message@ == self.spec_message(),
    {
        match self {
            ParseIntegerError::Empty => "cannot parse integer from empty string",
            ParseIntegerError::InvalidDigit => "invalid digit found in string",
            ParseIntegerError::PosOverflow => "number too large to fit in target type",
            ParseIntegerError::NegOverflow => "number too small to fit in target type",
        }
    }
}

/// The byte of the plus sign.
pub const PLUS: u8 = 0x2B;

/// The byte of the minus sign.
pub const MINUS: u8 = 0x2D;

/// The byte of the digit zero.
pub const ZERO: u8 = 0x30;

/// Whether a byte is a decimal digit.
pub open spec fn is_digit(byte: u8) -> bool {
    ZERO <= byte <= ZERO + 9
}

/// The number that results from appending the given digits to the decimal
/// form of `value`. Reading from the left, the first byte that is no digit
/// makes the digits invalid, and the first digit that takes the number
/// beyond `limit` makes the number too large.
pub open spec fn parsed_digits(digits: Seq<u8>, value: nat, limit: nat) -> Result<
    nat,
    ParseIntegerError,
>
    decreases digits.len(),
{
    if digits.len() == 0 {
        Ok(value)
    } else if !is_digit(digits[0]) {
        Err(ParseIntegerError::InvalidDigit)
    } else if value * 10 + (digits[0] - ZERO) > limit {
        Err(ParseIntegerError::PosOverflow)
    } else {
        parsed_digits(digits.drop_first(), (value * 10 + (digits[0] - ZERO)) as nat, limit)
    }
}

/// The integer between `min` and `max` whose decimal form the given bytes
/// are: digits, after an optional plus sign or, where the range holds
/// negative numbers, an optional minus sign.
pub open spec fn parsed_integer(bytes: Seq<u8>, min: int, max: int) -> Result<
    int,
    ParseIntegerError,
> {
    if bytes.len() == 0 {
        Err(ParseIntegerError::Empty)
    } else if bytes.len() == 1 && (bytes[0] == PLUS || bytes[0] == MINUS) {
        Err(ParseIntegerError::InvalidDigit)
    } else if bytes[0] == PLUS {
        match parsed_digits(bytes.drop_first(), 0, max as nat) {
            Ok(value) => Ok(value as int),
            Err(error) => Err(error),
        }
    } else if bytes[0] == MINUS && min < 0 {
        match parsed_digits(bytes.drop_first(), 0, (-min) as nat) {
            Ok(value) => Ok(-(value as int)),
            Err(ParseIntegerError::PosOverflow) => Err(ParseIntegerError::NegOverflow),
            Err(error) => Err(error),
        }
    } else {
        match parsed_digits(bytes, 0, max as nat) {
            Ok(value) => Ok(value as int),
            Err(error) => Err(error),
        }
    }
}

/// Reads the digits that follow the first `start` bytes.
fn parse_digits(bytes: &[u8], start: usize, limit: u64) -> (result: Result<u64, ParseIntegerError>)
    requires
        start <= bytes@.len(),
    ensures
        match parsed_digits(bytes@.skip(start as int), 0, limit as nat) {
            Ok(value) => result == Ok::<u64, ParseIntegerError>(value as u64) && value <= limit,
            Err(error) => result == Err::<u64, ParseIntegerError>(error),
        },
{
    let ghost digits = bytes@.skip(start as int);
    let mut value: u64 = 0;
    let mut i: usize = start;
    while i < bytes.len()
        invariant
            start <= i <= bytes@.len(),
            digits == bytes@.skip(start as int),
            value <= limit,
            parsed_digits(digits, 0, limit as nat) == parsed_digits(
                bytes@.skip(i as int),
                value as nat,
                limit as nat,
            ),
        decreases bytes@.len() - i,
    {
        let byte = *slice_index_get(bytes, i);
        proof {
            assert(bytes@.skip(i as int)[0] == byte);
            assert(bytes@.skip(i as int).drop_first() =~= bytes@.skip(i + 1));
        }
        if byte < ZERO || byte > ZERO + 9 {
            return Err(ParseIntegerError::InvalidDigit);
        }
        let digit: u64 = (byte - ZERO) as u64;
        if digit > limit {
            return Err(ParseIntegerError::PosOverflow);
        }
        if value > (limit - digit) / 10 {
            assert(value * 10 + digit > limit) by (nonlinear_arith)
                requires
                    value > (limit - digit) / 10,
                    digit <= limit,
            ;
            return Err(ParseIntegerError::PosOverflow);
        }
        assert(value * 10 + digit <= limit) by (nonlinear_arith)
            requires
                value <= (limit - digit) / 10,
                digit <= limit,
        ;
        value = value * 10 + digit;
        i = i + 1;
    }
    proof {
        assert(bytes@.skip(i as int) =~= Seq::<u8>::empty());
    }
    Ok(value)
}

/// Reads the decimal form of an integer between `min` and `max`.
pub fn parse_integer(value_string: &str, min: i128, max: i128) -> (result: Result<
    i128,
    ParseIntegerError,
>)
    requires
        -0x8000_0000_0000_0000 <= min <= 0,
        0 <= max <= 0xFFFF_FFFF_FFFF_FFFF,
    ensures
        match parsed_integer(value_string.spec_bytes(), min as int, max as int) {
            Ok(value) => result == Ok::<i128, ParseIntegerError>(value as i128) && min <= value
                <= max,
            Err(error) => result == Err::<i128, ParseIntegerError>(error),
        },
{
    let bytes = value_string.as_bytes();
    if bytes.len() == 0 {
        return Err(ParseIntegerError::Empty);
    }
    let first = *slice_index_get(bytes, 0);
    if bytes.len() == 1 && (first == PLUS || first == MINUS) {
        return Err(ParseIntegerError::InvalidDigit);
    }
    assert(bytes@.skip(1) =~= bytes@.drop_first());
    assert(bytes@.skip(0) =~= bytes@);
    if first == PLUS {
        match parse_digits(bytes, 1, max as u64) {
            Ok(value) => Ok(value as i128),
            Err(error) => Err(error),
        }
    } else if first == MINUS && min < 0 {
        match parse_digits(bytes, 1, (-min) as u64) {
            Ok(value) => Ok(-(value as i128)),
            Err(ParseIntegerError::PosOverflow) => Err(ParseIntegerError::NegOverflow),
            Err(error) => Err(error),
        }
    } else {
        match parse_digits(bytes, 0, max as u64) {
            Ok(value) => Ok(value as i128),
            Err(error) => Err(error),
        }
    }
}

/// The value of the given kind whose decimal form the given bytes are.
pub open spec fn parsed_value<T: BoundedInteger>(bytes: Seq<u8>) -> Result<int, ParseIntegerError> {
    parsed_integer(bytes, T::least(), T::greatest())
}

/// The message for a value of an argument that cannot be decoded.
pub open spec fn could_not_parse_message(argument_name: Seq<char>, error: ParseIntegerError) -> Seq<
    char,
> {
    "Error: Could not parse value of "@ + argument_name + ": "@ + error.spec_message()
}

/// Decodes the value of an argument, or else gives the message that says
/// why the value of the named argument cannot be decoded.
pub fn parse_value_string<T: BoundedInteger>(argument_name: &str, value_string: &str) -> (result:
    Result<T, String>)
    ensures
        match parsed_value::<T>(value_string.spec_bytes()) {
            Ok(number) => result is Ok && result->Ok_0.number() == number,
            Err(error) => result is Err && result->Err_0@ == could_not_parse_message(
                argument_name@,
                error,
            ),
        },
{
    proof {
        T::lemma_range();
    }
    match parse_integer(value_string, T::least_number(), T::greatest_number()) {
        Ok(number) => Ok(T::from_number(number)),
        Err(error) => {
            let message = String::from_str("Error: Could not parse value of ").concat(
                argument_name,
            ).concat(": ").concat(error.message());
            Err(message)
        },
    }
}

/// The values that the given strings stand for, in their order. Empty
/// strings are passed over; the first string that cannot be decoded
/// decides the error.
pub open spec fn parsed_values<T: BoundedInteger>(value_strings: Seq<&str>) -> Result<
    Seq<int>,
    ParseIntegerError,
>
    decreases value_strings.len(),
{
    if value_strings.len() == 0 {
        Ok(Seq::empty())
    } else {
        match parsed_values::<T>(value_strings.drop_last()) {
            Err(error) => Err(error),
            Ok(numbers) => if value_strings.last()@.len() == 0 {
                Ok(numbers)
            } else {
                match parsed_value::<T>(value_strings.last().spec_bytes()) {
                    Ok(number) => Ok(numbers.push(number)),
                    Err(error) => Err(error),
                }
            },
        }
    }
}

/// The integers that the given values are.
pub open spec fn numbers_of<T: BoundedInteger>(values: Seq<T>) -> Seq<int> {
    values.map_values(|value: T| value.number())
}

/// Decodes the values of an argument, passing over empty strings.
pub fn parse_value_strings<T: BoundedInteger>(argument_name: &str, value_strings: &[&str]) -> (result:
    Result<Vec<T>, String>)
    ensures
        match parsed_values::<T>(value_strings@) {
            Ok(numbers) => result is Ok && numbers_of(result->Ok_0@) == numbers,
            Err(error) => result is Err && result->Err_0@ == could_not_parse_message(
                argument_name@,
                error,
            ),
        },
{
    let mut values: Vec<T> = Vec::new();
    assert(value_strings@.take(0) =~= Seq::empty());
    assert(numbers_of(values@) =~= Seq::empty());
    for i in 0..value_strings.len()
        invariant
            parsed_values::<T>(value_strings@.take(i as int)) == Ok::<
                Seq<int>,
                ParseIntegerError,
            >(numbers_of(values@)),
    {
        let value_string = *slice_index_get(value_strings, i);
        proof {
            assert(value_strings@.take(i + 1).drop_last() =~= value_strings@.take(i as int));
            assert(value_strings@.take(i + 1).last() == value_string);
        }
        if !value_string.is_empty() {
            let ghost before = values@;
            match parse_value_string::<T>(argument_name, value_string) {
                Ok(value) => {
                    values.push(value);
                    assert(numbers_of(values@) =~= numbers_of(before).push(value.number()));
                },
                Err(message) => {
                    proof {
                        lemma_parsed_values_fail_with_prefix::<T>(value_strings@, i + 1);
                    }
                    return Err(message);
                },
            }
        }
    }
    assert(value_strings@.take(value_strings.len() as int) =~= value_strings@);
    Ok(values)
}

/// Where the first strings of a list cannot all be decoded, the whole
/// list fails with the same error.
proof fn lemma_parsed_values_fail_with_prefix<T: BoundedInteger>(value_strings: Seq<&str>, i: int)
    requires
        0 <= i <= value_strings.len(),
        parsed_values::<T>(value_strings.take(i)) is Err,
    ensures
        parsed_values::<T>(value_strings) == parsed_values::<T>(value_strings.take(i)),
    decreases value_strings.len() - i,
{
    if i < value_strings.len() {
        assert(value_strings.take(i + 1).drop_last() =~= value_strings.take(i));
        lemma_parsed_values_fail_with_prefix::<T>(value_strings, i + 1);
    } else {
        assert(value_strings.take(i) =~= value_strings);
    }
}

/// Whether two strings are equal.
pub fn str_eq(a: &str, b: &str) -> (equal: bool)
    ensures
        equal == (a@ == b@),
{
    let a_bytes = a.as_bytes();
    let b_bytes = b.as_bytes();
    proof {
        vstd::utf8::encode_utf8_decode_utf8(a@);
        vstd::utf8::encode_utf8_decode_utf8(b@);
    }
    if a_bytes.len() != b_bytes.len() {
        return false;
    }
    for i in 0..a_bytes.len()
        invariant
            a_bytes@.len() == b_bytes@.len(),
            a_bytes@ == a.spec_bytes(),
            b_bytes@ == b.spec_bytes(),
            vstd::utf8::decode_utf8(a.spec_bytes()) == a@,
            vstd::utf8::decode_utf8(b.spec_bytes()) == b@,
            forall|j: int| 0 <= j < i ==> a_bytes@[j] == b_bytes@[j],
    {
        if *slice_index_get(a_bytes, i) != *slice_index_get(b_bytes, i) {
            return false;
        }
    }
    assert(a_bytes@ =~= b_bytes@);
    true
}

/// Position of the first of the possible strings that equals the given
/// string and has a value beside it.
pub open spec fn possible_value_index(
    value_string: Seq<char>,
    possible_value_strings: Seq<&str>,
    number_of_values: nat,
) -> Option<int>
    decreases possible_value_strings.len(),
{
    if possible_value_strings.len() == 0 {
        None
    } else {
        match possible_value_index(
            value_string,
            possible_value_strings.drop_last(),
            number_of_values,
        ) {
            Some(i) => Some(i),
            None => if possible_value_strings.last()@ == value_string
                && possible_value_strings.len() <= number_of_values {
                Some(possible_value_strings.len() - 1)
            } else {
                None
            },
        }
    }
}

/// What [`possible_value_index`] finds: the least position at which the
/// string stands beside a value.
pub proof fn lemma_possible_value_index(
    value_string: Seq<char>,
    possible_value_strings: Seq<&str>,
    number_of_values: nat,
)
    ensures
        match possible_value_index(value_string, possible_value_strings, number_of_values) {
            Some(i) => 0 <= i < possible_value_strings.len() && i < number_of_values
                && possible_value_strings[i]@ == value_string && forall|j: int|
                0 <= j < i ==> possible_value_strings[j]@ != value_string,
            None => forall|j: int|
                0 <= j < possible_value_strings.len() && j < number_of_values
                    ==> possible_value_strings[j]@ != value_string,
        },
    decreases possible_value_strings.len(),
{
    if possible_value_strings.len() > 0 {
        let init = possible_value_strings.drop_last();
        lemma_possible_value_index(value_string, init, number_of_values);
        match possible_value_index(value_string, possible_value_strings, number_of_values) {
            Some(i) => {
                assert forall|j: int| 0 <= j < i implies possible_value_strings[j]@
                    != value_string by {
                    assert(init[j] == possible_value_strings[j]);
                }
            },
            None => {
                assert forall|j: int|
                    0 <= j < possible_value_strings.len() && j < number_of_values implies possible_value_strings[j]@
                    != value_string by {
                    if j < init.len() {
                        assert(init[j] == possible_value_strings[j]);
                    }
                }
            },
        }
    }
}

/// The message for a value that is none of the possible ones.
pub open spec fn invalid_value_message(argument_name: Seq<char>, value_string: Seq<char>) -> Seq<
    char,
> {
    "Error: Invalid value for "@ + argument_name + ": "@ + value_string
}

/// Picks the value that stands beside the given string in the list of
/// possible values, or else gives the message that says that the value of
/// the named argument is invalid.
pub fn get_value_from_required_constrained_argument<T: Copy>(
    value_string: &str,
    argument_name: &str,
    possible_value_strings: &[&str],
    possible_values: &[T],
) -> (result: Result<T, String>)
    ensures
        match possible_value_index(
            value_string@,
            possible_value_strings@,
            possible_values@.len(),
        ) {
            Some(i) => result == Ok::<T, String>(possible_values@[i]),
            None => result is Err && result->Err_0@ == invalid_value_message(
                argument_name@,
                value_string@,
            ),
        },
{
    let mut i: usize = 0;
    while i < possible_value_strings.len() && i < possible_values.len()
        invariant
            forall|j: int| 0 <= j < i ==> possible_value_strings@[j]@ != value_string@,
        decreases possible_value_strings@.len() - i,
    {
        if str_eq(*slice_index_get(possible_value_strings, i), value_string) {
            proof {
                lemma_possible_value_index(
                    value_string@,
                    possible_value_strings@,
                    possible_values@.len(),
                );
            }
            return Ok(*slice_index_get(possible_values, i));
        }
        i = i + 1;
    }
    proof {
        lemma_possible_value_index(value_string@, possible_value_strings@, possible_values@.len());
    }
    let message = String::from_str("Error: Invalid value for ").concat(argument_name).concat(
        ": ",
    ).concat(value_string);
    Err(message)
}

/// Picks the value that stands beside the given string in the list of
/// possible values, or the default where no string is given.
pub fn get_value_from_constrained_argument_with_custom_default<T: Copy>(
    value_string: Option<&str>,
    argument_name: &str,
    possible_value_strings: &[&str],
    possible_values: &[T],
    default_value: T,
) -> (result: Result<T, String>)
    ensures
        match value_string {
            Some(value_string) => match possible_value_index(
                value_string@,
                possible_value_strings@,
                possible_values@.len(),
            ) {
                Some(i) => result == Ok::<T, String>(possible_values@[i]),
                None => result is Err && result->Err_0@ == invalid_value_message(
                    argument_name@,
                    value_string@,
                ),
            },
            None => result == Ok::<T, String>(default_value),
        },
{
    match value_string {
        Some(value_string) => get_value_from_required_constrained_argument(
            value_string,
            argument_name,
            possible_value_strings,
            possible_values,
        ),
        None => Ok(default_value),
    }
}

/// Decides what to do with existing files from the two flags of the
/// command line: to overwrite always, or never; without a flag, to ask.
pub fn overwrite_mode_from_arguments(overwrite: bool, no_overwrite: bool) -> (mode: OverwriteMode)
    ensures
        mode == if overwrite {
            OverwriteMode::Always
        } else if no_overwrite {
            OverwriteMode::Never
        } else {
            OverwriteMode::Ask
        },
{
    if overwrite {
        OverwriteMode::Always
    } else if no_overwrite {
        OverwriteMode::Never
    } else {
        OverwriteMode::Ask
    }
}

/// The character of a decimal digit.
pub open spec fn digit_char(digit: nat) -> char {
    seq!['0', '1', '2', '3', '4', '5', '6', '7', '8', '9'][digit as int]
}

/// The decimal form of a natural number.
pub open spec fn decimal_digits(number: nat) -> Seq<char>
    decreases number,
{
    if number < 10 {
        seq![digit_char(number)]
    } else {
        decimal_digits(number / 10).push(digit_char(number % 10))
    }
}

/// The decimal form of an integer.
pub open spec fn decimal(number: int) -> Seq<char> {
    if number < 0 {
        seq!['-'] + decimal_digits((-number) as nat)
    } else {
        decimal_digits(number as nat)
    }
}

/// The string of a decimal digit.
fn digit_string(digit: u128) -> (string: &'static str)
    requires
        digit < 10,
    ensures
        string@ == seq![digit_char(digit as nat)],
{
    proof {
        reveal_strlit("0");
        reveal_strlit("1");
        reveal_strlit("2");
        reveal_strlit("3");
        reveal_strlit("4");
        reveal_strlit("5");
        reveal_strlit("6");
        reveal_strlit("7");
        reveal_strlit("8");
        reveal_strlit("9");
    }
    let string = if digit == 0 {
        "0"
    } else if digit == 1 {
        "1"
    } else if digit == 2 {
        "2"
    } else if digit == 3 {
        "3"
    } else if digit == 4 {
        "4"
    } else if digit == 5 {
        "5"
    } else if digit == 6 {
        "6"
    } else if digit == 7 {
        "7"
    } else if digit == 8 {
        "8"
    } else {
        "9"
    };
    assert(string@ =~= seq![digit_char(digit as nat)]);
    string
}

/// Writes a natural number in decimal form.
fn format_natural(number: u128) -> (string: String)
    ensures
        string@ == decimal_digits(number as nat),
    decreases number,
{
    if number < 10 {
        String::from_str(digit_string(number))
    } else {
        let string = format_natural(number / 10).concat(digit_string(number % 10));
        assert(string@ =~= decimal_digits(number as nat));
        string
    }
}

/// Writes an integer in decimal form.
pub fn format_integer(number: i128) -> (string: String)
    ensures
        string@ == decimal(number as int),
{
    if number < 0 {
        proof {
            reveal_strlit("-");
            assert("-"@ =~= seq!['-']);
        }
        let magnitude: u128 = (-(number + 1)) as u128 + 1;
        let digits = format_natural(magnitude);
        String::from_str("-").concat(digits.as_str())
    } else {
        format_natural(number as u128)
    }
}

/// The integer that a string stands for as a limit: the least one allowed
/// for `min`, the greatest one allowed for `max`, else the integer whose
/// decimal form the string is.
pub open spec fn limit_value<I: BoundedInteger>(value_string: &str, min_value: I, max_value: I) -> Result<
    int,
    ParseIntegerError,
> {
    if value_string@ == "min"@ {
        Ok(min_value.number())
    } else if value_string@ == "max"@ {
        Ok(max_value.number())
    } else {
        parsed_value::<I>(value_string.spec_bytes())
    }
}

/// The integers that the given strings stand for as limits. The first
/// string that cannot be decoded decides the error.
pub open spec fn limit_values<I: BoundedInteger>(
    value_strings: Seq<&str>,
    min_value: I,
    max_value: I,
) -> Result<Seq<int>, ParseIntegerError>
    decreases value_strings.len(),
{
    if value_strings.len() == 0 {
        Ok(Seq::empty())
    } else {
        match limit_values::<I>(value_strings.drop_last(), min_value, max_value) {
            Err(error) => Err(error),
            Ok(numbers) => match limit_value::<I>(value_strings.last(), min_value, max_value) {
                Ok(number) => Ok(numbers.push(number)),
                Err(error) => Err(error),
            },
        }
    }
}

/// Where the first strings of a list cannot all be decoded as limits, the
/// whole list fails with the same error.
proof fn lemma_limit_values_fail_with_prefix<I: BoundedInteger>(
    value_strings: Seq<&str>,
    min_value: I,
    max_value: I,
    i: int,
)
    requires
        0 <= i <= value_strings.len(),
        limit_values::<I>(value_strings.take(i), min_value, max_value) is Err,
    ensures
        limit_values::<I>(value_strings, min_value, max_value) == limit_values::<I>(
            value_strings.take(i),
            min_value,
            max_value,
        ),
    decreases value_strings.len() - i,
{
    if i < value_strings.len() {
        assert(value_strings.take(i + 1).drop_last() =~= value_strings.take(i));
        lemma_limit_values_fail_with_prefix::<I>(value_strings, min_value, max_value, i + 1);
    } else {
        assert(value_strings.take(i) =~= value_strings);
    }
}

/// The message for a limit of an argument that cannot be decoded.
pub open spec fn could_not_parse_limit_message(
    argument_name: Seq<char>,
    error: ParseIntegerError,
) -> Seq<char> {
    "Error: Could not parse value in "@ + argument_name + ": "@ + error.spec_message()
}

/// The message for an upper limit below the lower limit.
pub open spec fn limits_out_of_order_message(argument_name: Seq<char>, first: int, second: int) -> Seq<
    char,
> {
    "Error: Second value in "@ + argument_name + " ("@ + decimal(second)
        + ") must be larger than or equal to first value ("@ + decimal(first) + ")"@
}

/// Decodes the lower and the upper limit given for an argument. In place
/// of a number `min` stands for the least and `max` for the greatest
/// value allowed. The upper limit may not be below the lower one.
pub fn parse_int_limits<I: BoundedInteger>(
    value_strings: &[&str],
    argument_name: &str,
    min_value: I,
    max_value: I,
) -> (result: Result<(I, I), String>)
    requires
        value_strings@.len() >= 2,
        max_value.number() >= min_value.number(),
    ensures
        match limit_values::<I>(value_strings@, min_value, max_value) {
            Err(error) => result is Err && result->Err_0@ == could_not_parse_limit_message(
                argument_name@,
                error,
            ),
            Ok(limits) => if limits[1] >= limits[0] {
                result is Ok && result->Ok_0.0.number() == limits[0] && result->Ok_0.1.number()
                    == limits[1]
            } else {
                result is Err && result->Err_0@ == limits_out_of_order_message(
                    argument_name@,
                    limits[0],
                    limits[1],
                )
            },
        },
{
    let mut limits: Vec<I> = Vec::new();
    assert(value_strings@.take(0) =~= Seq::empty());
    assert(numbers_of(limits@) =~= Seq::empty());
    for i in 0..value_strings.len()
        invariant
            limit_values::<I>(value_strings@.take(i as int), min_value, max_value) == Ok::<
                Seq<int>,
                ParseIntegerError,
            >(numbers_of(limits@)),
            limits@.len() == i,
    {
        let value_string = *slice_index_get(value_strings, i);
        let ghost before = limits@;
        proof {
            assert(value_strings@.take(i + 1).drop_last() =~= value_strings@.take(i as int));
            assert(value_strings@.take(i + 1).last() == value_string);
            I::lemma_range();
        }
        let limit = if str_eq(value_string, "min") {
            min_value
        } else if str_eq(value_string, "max") {
            max_value
        } else {
            match parse_integer(value_string, I::least_number(), I::greatest_number()) {
                Ok(number) => I::from_number(number),
                Err(error) => {
                    proof {
                        lemma_limit_values_fail_with_prefix::<I>(
                            value_strings@,
                            min_value,
                            max_value,
                            i + 1,
                        );
                    }
                    let message = String::from_str("Error: Could not parse value in ").concat(
                        argument_name,
                    ).concat(": ").concat(error.message());
                    return Err(message);
                },
            }
        };
        limits.push(limit);
        assert(numbers_of(limits@) =~= numbers_of(before).push(limit.number()));
    }
    assert(value_strings@.take(value_strings.len() as int) =~= value_strings@);
    let first = limits[0];
    let second = limits[1];
    if second.to_number() >= first.to_number() {
        Ok((first, second))
    } else {
        let message = String::from_str("Error: Second value in ").concat(argument_name).concat(
            " (",
        ).concat(format_integer(second.to_number()).as_str()).concat(
            ") must be larger than or equal to first value (",
        ).concat(format_integer(first.to_number()).as_str()).concat(")");
        Err(message)
    }
}

/// The lowercase equivalent of a string.
pub uninterp spec fn lowercase(name: Seq<char>) -> Seq<char>;

/// Calls `str::to_lowercase`, which returns the lowercase equivalent of a
/// string slice as a new string: the result is given the name
/// [`lowercase`], and nothing more is said of it.
#[verifier::external_body]
fn to_lowercase(name: &str) -> (lowered: String)
    ensures
        lowered@ == lowercase(name@),
{
    name.to_lowercase()
}

/// The lowercase equivalents of the given names that are not empty, in
/// their order.
pub open spec fn lowercase_names(names: Seq<&str>) -> Seq<Seq<char>> {
    names.filter(|name: &str| name@.len() > 0).map_values(|name: &str| lowercase(name@))
}

/// Collects the names of quantities given on the command line: empty
/// names are dropped, and the others are put in lowercase.
pub fn collect_quantity_names(names: &[&str]) -> (collected: Vec<String>)
    ensures
        collected@.map_values(|name: String| name@) == lowercase_names(names@),
{
    let ghost is_name = |name: &str| name@.len() > 0;
    let ghost lowered = |name: &str| lowercase(name@);
    let mut collected: Vec<String> = Vec::new();
    proof {
        assert(names@.take(0).filter(is_name) =~= Seq::empty());
        assert(collected@.map_values(|name: String| name@) =~= names@.take(0).filter(
            is_name,
        ).map_values(lowered));
    }
    for i in 0..names.len()
        invariant
            is_name == |name: &str| name@.len() > 0,
            lowered == |name: &str| lowercase(name@),
            collected@.map_values(|name: String| name@) == names@.take(i as int).filter(
                is_name,
            ).map_values(lowered),
    {
        let name = *slice_index_get(names, i);
        let ghost done = names@.take(i as int);
        let ghost before = collected@;
        proof {
            assert(names@.take(i + 1).drop_last() =~= done);
            assert(names@.take(i + 1).last() == name);
            reveal(Seq::filter);
        }
        if !name.is_empty() {
            collected.push(to_lowercase(name));
            proof {
                assert(names@.take(i + 1).filter(is_name) == done.filter(is_name).push(name));
                assert(collected@.map_values(|name: String| name@) =~= before.map_values(
                    |name: String| name@,
                ).push(lowered(name)));
                assert(done.filter(is_name).map_values(lowered).push(lowered(name))
                    =~= done.filter(is_name).push(name).map_values(lowered));
            }
        } else {
            assert(names@.take(i + 1).filter(is_name) == done.filter(is_name));
        }
    }
    assert(names@.take(names.len() as int) =~= names@);
    collected
}

} // verus!
