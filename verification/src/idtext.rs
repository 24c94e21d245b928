//! Identifiers as text.
//!
//! Towards clients an account, journal or entry identifier is a string of
//! nineteen decimal digits, padded with zeros, and the discriminator that
//! tells apart users of one name is a string of four. Read back, such a
//! string is a decimal number with an optional sign.

use vstd::prelude::*;
use vstd::string::{is_ascii_spec_bytes, StringExecFns, StringSliceAdditionalSpecFns};

verus! {

/// Why an identifier could not be written as text or read from it.
#[derive(Clone, Copy, Debug, PartialEq, Eq, Structural)]
pub enum IdTextError {
    /// An identifier below zero was to be written.
    Negative,
    /// A discriminator outside `0..=9999` was to be written.
    OutOfRange,
    /// The text of an identifier is longer than nineteen bytes.
    TooLong,
    /// The text of a discriminator is not four bytes long.
    WrongLength,
    /// The text is empty.
    Empty,
    /// The text is not an optional sign followed by decimal digits.
    InvalidDigit,
    /// The number is too large for an identifier.
    PosOverflow,
}

impl IdTextError {
    pub open spec fn message_spec(self) -> Seq<char> {
        match self {
            IdTextError::Negative => "expected value > 0"@,
            IdTextError::OutOfRange => "expected value to be within [0, 10000)"@,
            IdTextError::TooLong => "expected string with max length 19"@,
            IdTextError::WrongLength => "expected string of length 4"@,
            IdTextError::Empty => "cannot parse integer from empty string"@,
            IdTextError::InvalidDigit => "invalid digit found in string"@,
            IdTextError::PosOverflow => "number too large to fit in target type"@,
        }
    }

    /// The error in words.
    pub fn message(&self) -> (text: &'static str)
        ensures
            text@ == self.message_spec(),
    {
        match self {
            IdTextError::Negative => "expected value > 0",
            IdTextError::OutOfRange => "expected value to be within [0, 10000)",
            IdTextError::TooLong => "expected string with max length 19",
            IdTextError::WrongLength => "expected string of length 4",
            IdTextError::Empty => "cannot parse integer from empty string",
            IdTextError::InvalidDigit => "invalid digit found in string",
            IdTextError::PosOverflow => "number too large to fit in target type",
        }
    }
}

/// The character of a decimal digit.
pub open spec fn digit_char(digit: int) -> char {
    if digit == 0 {
        '0'
    } else if digit == 1 {
        '1'
    } else if digit == 2 {
        '2'
    } else if digit == 3 {
        '3'
    } else if digit == 4 {
        '4'
    } else if digit == 5 {
        '5'
    } else if digit == 6 {
        '6'
    } else if digit == 7 {
        '7'
    } else if digit == 8 {
        '8'
    } else {
        '9'
    }
}

/// Whether `c` is one of `'0'` to `'9'`.
pub open spec fn is_digit(c: char) -> bool {
    '0' <= c <= '9'
}

/// The digit that `c` stands for.
pub open spec fn digit_value(c: char) -> int {
    c as int - '0' as int
}

/// The last `width` decimal digits of `value`, most significant first, with
/// zeros where `value` has fewer.
pub open spec fn decimal(value: nat, width: nat) -> Seq<char>
    decreases width,
{
    if width == 0 {
        Seq::empty()
    } else {
        decimal(value / 10, (width - 1) as nat).push(digit_char(value as int % 10))
    }
}

pub open spec fn all_digits(text: Seq<char>) -> bool {
    forall|i: int| 0 <= i < text.len() ==> is_digit(#[trigger] text[i])
}

/// The number that a string of decimal digits writes.
pub open spec fn digits_value(text: Seq<char>) -> int
    decreases text.len(),
{
    if text.len() == 0 {
        0
    } else {
        digits_value(text.drop_last()) * 10 + digit_value(text.last())
    }
}

pub open spec fn power_of_ten(exponent: nat) -> int
    decreases exponent,
{
    if exponent == 0 {
        1
    } else {
        10 * power_of_ten((exponent - 1) as nat)
    }
}

/// Reads a decimal number: an optional `+` or `-`, then at least one digit
/// and nothing but digits.
pub open spec fn read_decimal(text: Seq<char>) -> Result<int, IdTextError> {
    if text.len() == 0 {
        Err(IdTextError::Empty)
    } else {
        let signed = text[0] == '+' || text[0] == '-';
        let digits = if signed {
            text.skip(1)
        } else {
            text
        };
        if digits.len() == 0 || !all_digits(digits) {
            Err(IdTextError::InvalidDigit)
        } else if text[0] == '-' {
            Ok(-digits_value(digits))
        } else {
            Ok(digits_value(digits))
        }
    }
}

/// The text of an identifier.
pub open spec fn encode_id_spec(id: i64) -> Result<Seq<char>, IdTextError> {
    if id < 0 {
        Err(IdTextError::Negative)
    } else {
        Ok(decimal(id as nat, 19))
    }
}

/// The identifier that a text writes. Its length counts in bytes, and
/// nineteen of them cannot write a number below the smallest identifier.
pub open spec fn decode_id_spec(text: Seq<char>) -> Result<int, IdTextError> {
    if vstd::utf8::encode_utf8(text).len() > 19 {
        Err(IdTextError::TooLong)
    } else {
        match read_decimal(text) {
            Err(e) => Err(e),
            Ok(value) => if value > i64::MAX {
                Err(IdTextError::PosOverflow)
            } else {
                Ok(value)
            },
        }
    }
}

/// The text of a discriminator.
pub open spec fn encode_discriminator_spec(discriminator: i16) -> Result<Seq<char>, IdTextError> {
    if discriminator < 0 || discriminator > 9999 {
        Err(IdTextError::OutOfRange)
    } else {
        Ok(decimal(discriminator as nat, 4))
    }
}

/// The discriminator that a text writes. Its length counts in bytes; four
/// of them write a number between -999 and 9999.
pub open spec fn decode_discriminator_spec(text: Seq<char>) -> Result<int, IdTextError> {
    if vstd::utf8::encode_utf8(text).len() != 4 {
        Err(IdTextError::WrongLength)
    } else {
        read_decimal(text)
    }
}

/// The bytes of `0`, `9`, `+` and `-`.
const ASCII_ZERO: u8 = 48;

const ASCII_NINE: u8 = 57;

const ASCII_PLUS: u8 = 43;

const ASCII_MINUS: u8 = 45;

fn digit_text(digit: u64) -> (text: &'static str)
    requires
        digit < 10,
    ensures
        text@ == seq![digit_char(digit as int)],
{
    proof {
        reveal_strlit("0");
        reveal_strlit("1");
        reveal_strlit("2");
        reveal_strlit("3");
        reveal_strlit("4");
        reveal_strlit("5");
        reveal_strlit("6");
        reveal_strlit("7");
        reveal_strlit("8");
        reveal_strlit("9");
    }
    let text = if digit == 0 {
        "0"
    } else if digit == 1 {
        "1"
    } else if digit == 2 {
        "2"
    } else if digit == 3 {
        "3"
    } else if digit == 4 {
        "4"
    } else if digit == 5 {
        "5"
    } else if digit == 6 {
        "6"
    } else if digit == 7 {
        "7"
    } else if digit == 8 {
        "8"
    } else {
        "9"
    };
    assert(text@ =~= seq![digit_char(digit as int)]);
    text
}

/// Appends the last `width` digits of `value` to `out`.
fn push_decimal(out: &mut String, value: u64, width: u32)
    ensures
        final(out)@ == old(out)@ + decimal(value as nat, width as nat),
    decreases width,
{
    if width == 0 {
        assert(out@ + decimal(value as nat, 0) =~= out@);
    } else {
        push_decimal(out, value / 10, width - 1);
        out.append(digit_text(value % 10));
        assert(old(out)@ + decimal((value / 10) as nat, (width - 1) as nat) + seq![
            digit_char((value % 10) as int),
        ] =~= old(out)@ + decimal(value as nat, width as nat));
    }
}

/// Writes an identifier as nineteen digits.
pub fn encode_id(id: i64) -> (text: Result<String, IdTextError>)
    ensures
        match text {
            Ok(t) => encode_id_spec(id) == Ok::<Seq<char>, IdTextError>(t@),
            Err(e) => encode_id_spec(id) == Err::<Seq<char>, IdTextError>(e),
        },
{
    if id < 0 {
        return Err(IdTextError::Negative);
    }
    let mut out = String::new();
    push_decimal(&mut out, id as u64, 19);
    assert(Seq::<char>::empty() + decimal(id as nat, 19) =~= decimal(id as nat, 19));
    Ok(out)
}

/// Writes a discriminator as four digits.
pub fn encode_discriminator(discriminator: i16) -> (text: Result<String, IdTextError>)
    ensures
        match text {
            Ok(t) => encode_discriminator_spec(discriminator) == Ok::<Seq<char>, IdTextError>(
                t@,
            ),
            Err(e) => encode_discriminator_spec(discriminator) == Err::<Seq<char>, IdTextError>(
                e,
            ),
        },
{
    if discriminator < 0 || discriminator > 9999 {
        return Err(IdTextError::OutOfRange);
    }
    let mut out = String::new();
    push_decimal(&mut out, discriminator as u64, 4);
    assert(Seq::<char>::empty() + decimal(discriminator as nat, 4) =~= decimal(
        discriminator as nat,
        4,
    ));
    Ok(out)
}

proof fn digits_stay_below_power(text: Seq<char>)
    requires
        all_digits(text),
    ensures
        0 <= digits_value(text) < power_of_ten(text.len()),
    decreases text.len(),
{
    if text.len() > 0 {
        let front = text.drop_last();
        assert(all_digits(front)) by {
            assert forall|i: int| 0 <= i < front.len() implies is_digit(#[trigger] front[i]) by {
                assert(front[i] == text[i]);
            }
        }
        digits_stay_below_power(front);
        assert(is_digit(text[text.len() - 1]));
    }
}

/// Reads the digits of an ASCII text from byte `from` on. At most nineteen
/// digits are read, so the number fits sixty-four bits.
fn read_digits(text: &str, from: usize) -> (magnitude: Option<u64>)
    requires
        text.is_ascii(),
        from <= text@.len() <= 19,
    ensures
        match magnitude {
            Some(m) => all_digits(text@.skip(from as int)) && m == digits_value(
                text@.skip(from as int),
            ) && m < power_of_ten((text@.len() - from) as nat),
            None => !all_digits(text@.skip(from as int)),
        },
{
    broadcast use is_ascii_spec_bytes;

    let bytes = text.as_bytes();
    let ghost digits = text@.skip(from as int);
    let mut magnitude: u64 = 0;
    let mut i: usize = from;
    assert(digits.take(0) =~= Seq::<char>::empty());
    while i < bytes.len()
        invariant
            from <= i <= bytes@.len(),
            bytes@.len() == text@.len(),
            text@.len() <= 19,
            forall|k: int| 0 <= k < bytes@.len() ==> bytes@[k] == (#[trigger] text@[k]) as u8,
            forall|k: int| 0 <= k < text@.len() ==> '\0' <= #[trigger] text@[k] <= '\u{7f}',
            digits == text@.skip(from as int),
            all_digits(digits.take(i - from)),
            magnitude == digits_value(digits.take(i - from)),
        decreases bytes@.len() - i,
    {
        let byte = bytes[i];
        let ghost c = text@[i as int];
        assert(byte == c as u8);
        assert(digits[i - from] == c);
        assert('\0' <= c <= '\u{7f}');
        assert(byte as int == c as int);
        if byte < ASCII_ZERO || byte > ASCII_NINE {
            assert(!is_digit(digits[i - from]));
            return None;
        }
        proof {
            let sofar = digits.take(i - from);
            let more = digits.take(i - from + 1);
            assert(more.drop_last() =~= sofar);
            assert(more.last() == c);
            digits_stay_below_power(sofar);
            assert(sofar.len() <= 18);
            power_grows(sofar.len(), 18);
            assert(power_of_ten(18) == 1000000000000000000) by {
                reveal_with_fuel(power_of_ten, 19);
            }
            assert forall|k: int| 0 <= k < more.len() implies is_digit(#[trigger] more[k]) by {
                if k < sofar.len() {
                    assert(more[k] == sofar[k]);
                }
            }
        }
        magnitude = magnitude * 10 + (byte - ASCII_ZERO) as u64;
        i += 1;
    }
    assert(digits.take(i - from) =~= digits);
    proof {
        digits_stay_below_power(digits);
    }
    Some(magnitude)
}

proof fn power_grows(small: nat, large: nat)
    requires
        small <= large,
    ensures
        0 < power_of_ten(small) <= power_of_ten(large),
    decreases large,
{
    if small < large {
        power_grows(small, (large - 1) as nat);
    } else if small > 0 {
        power_grows((small - 1) as nat, (large - 1) as nat);
    }
}

/// Reads a decimal number from a text of at most nineteen bytes: whether
/// it is written with a minus sign, and its magnitude.
fn read_number(text: &str) -> (reading: Result<(bool, u64), IdTextError>)
    requires
        text.spec_bytes().len() <= 19,
    ensures
        match reading {
            Ok((negative, magnitude)) => {
                &&& read_decimal(text@) == Ok::<int, IdTextError>(
                    if negative {
                        -magnitude
                    } else {
                        magnitude as int
                    },
                )
                &&& text@.len() == text.spec_bytes().len()
                &&& magnitude < power_of_ten(text@.len())
                &&& negative ==> magnitude < power_of_ten((text@.len() - 1) as nat)
            },
            Err(e) => read_decimal(text@) == Err::<int, IdTextError>(e),
        },
{
    broadcast use is_ascii_spec_bytes;

    if text.is_empty() {
        return Err(IdTextError::Empty);
    }
    if !text.is_ascii() {
        proof {
            not_ascii_is_no_number(text@);
        }
        return Err(IdTextError::InvalidDigit);
    }
    let bytes = text.as_bytes();
    assert(bytes@.len() == text@.len());
    let first = bytes[0];
    assert(first == text@[0] as u8);
    assert('\0' <= text@[0] <= '\u{7f}');
    assert(first as int == text@[0] as int);
    let signed = first == ASCII_PLUS || first == ASCII_MINUS;
    assert(signed == (text@[0] == '+' || text@[0] == '-'));
    let from: usize = if signed {
        1
    } else {
        0
    };
    let ghost digits = text@.skip(from as int);
    assert(!signed ==> digits =~= text@);
    if from == bytes.len() {
        return Err(IdTextError::InvalidDigit);
    }
    proof {
        power_grows((text@.len() - from) as nat, text@.len());
    }
    match read_digits(text, from) {
        None => Err(IdTextError::InvalidDigit),
        Some(magnitude) => Ok((first == ASCII_MINUS, magnitude)),
    }
}

proof fn not_ascii_is_no_number(text: Seq<char>)
    requires
        text.len() > 0,
        !vstd::utf8::is_ascii_chars(text),
    ensures
        read_decimal(text) == Err::<int, IdTextError>(IdTextError::InvalidDigit),
{
    let at = choose|i: int| 0 <= i < text.len() && !('\0' <= #[trigger] text[i] <= '\u{7f}');
    assert(!is_digit(text[at]) && text[at] != '+' && text[at] != '-');
    let signed = text[0] == '+' || text[0] == '-';
    if signed {
        assert(at > 0);
        let digits = text.skip(1);
        assert(digits[at - 1] == text[at]);
        assert(!is_digit(digits[at - 1]));
    } else {
        assert(!is_digit(text[at]));
    }
}

/// Reads an identifier from its text.
pub fn decode_id(value: &str) -> (id: Result<i64, IdTextError>)
    ensures
        match id {
            Ok(v) => decode_id_spec(value@) == Ok::<int, IdTextError>(v as int),
            Err(e) => decode_id_spec(value@) == Err::<int, IdTextError>(e),
        },
{
    if value.as_bytes().len() > 19 {
        return Err(IdTextError::TooLong);
    }
    match read_number(value) {
        Err(e) => Err(e),
        Ok((negative, magnitude)) => {
            proof {
                power_grows((value@.len() - 1) as nat, 18);
                assert(power_of_ten(18) == 1000000000000000000) by {
                    reveal_with_fuel(power_of_ten, 19);
                }
            }
            if negative {
                Ok(-(magnitude as i64))
            } else if magnitude > 9223372036854775807 {
                Err(IdTextError::PosOverflow)
            } else {
                Ok(magnitude as i64)
            }
        },
    }
}

/// Reads a discriminator from its text.
pub fn decode_discriminator(value: &str) -> (discriminator: Result<i16, IdTextError>)
    ensures
        match discriminator {
            Ok(v) => decode_discriminator_spec(value@) == Ok::<int, IdTextError>(v as int),
            Err(e) => decode_discriminator_spec(value@) == Err::<int, IdTextError>(e),
        },
{
    if value.as_bytes().len() != 4 {
        return Err(IdTextError::WrongLength);
    }
    match read_number(value) {
        Err(e) => Err(e),
        Ok((negative, magnitude)) => {
            proof {
                assert(power_of_ten(4) == 10000 && power_of_ten(3) == 1000) by {
                    reveal_with_fuel(power_of_ten, 5);
                }
            }
            if negative {
                Ok(-(magnitude as i16))
            } else {
                Ok(magnitude as i16)
            }
        },
    }
}

proof fn decimal_reads_back(value: nat, width: nat)
    requires
        value < power_of_ten(width),
    ensures
        decimal(value, width).len() == width,
        all_digits(decimal(value, width)),
        vstd::utf8::is_ascii_chars(decimal(value, width)),
        digits_value(decimal(value, width)) == value,
    decreases width,
{
    if width > 0 {
        let front = decimal(value / 10, (width - 1) as nat);
        let last = digit_char(value as int % 10);
        decimal_reads_back(value / 10, (width - 1) as nat);
        let text = decimal(value, width);
        assert(text == front.push(last));
        assert(text.drop_last() =~= front);
        assert(is_digit(last) && digit_value(last) == value as int % 10);
        assert forall|i: int| 0 <= i < text.len() implies is_digit(#[trigger] text[i]) by {
            if i < front.len() {
                assert(text[i] == front[i]);
            }
        }
        assert forall|i: int| 0 <= i < text.len() implies '\0' <= #[trigger] text[i]
            <= '\u{7f}' by {
            assert(is_digit(text[i]));
        }
    }
}

/// An identifier that is not negative is read back from its text as itself.
pub proof fn id_text_round_trip(id: i64)
    requires
        id >= 0,
    ensures
        encode_id_spec(id) matches Ok(text) && decode_id_spec(text) == Ok::<int, IdTextError>(
            id as int,
        ),
{
    assert(power_of_ten(19) == 10000000000000000000) by {
        reveal_with_fuel(power_of_ten, 20);
    }
    let text = decimal(id as nat, 19);
    decimal_reads_back(id as nat, 19);
    vstd::utf8::is_ascii_chars_encode_utf8(text);
    assert(is_digit(text[0]));
}

/// A discriminator between 0 and 9999 is read back from its text as itself.
pub proof fn discriminator_text_round_trip(discriminator: i16)
    requires
        0 <= discriminator <= 9999,
    ensures
        encode_discriminator_spec(discriminator) matches Ok(text) && decode_discriminator_spec(
            text,
        ) == Ok::<int, IdTextError>(discriminator as int),
{
    assert(power_of_ten(4) == 10000) by {
        reveal_with_fuel(power_of_ten, 5);
    }
    let text = decimal(discriminator as nat, 4);
    decimal_reads_back(discriminator as nat, 4);
    vstd::utf8::is_ascii_chars_encode_utf8(text);
    assert(is_digit(text[0]));
}

/// What is read from a text fits the type it is read into: an identifier
/// lies above the negative of ten to the eighteenth, a discriminator between
/// -999 and 9999.
pub proof fn read_numbers_fit(text: Seq<char>)
    ensures
        decode_id_spec(text) matches Ok(id) ==> -1000000000000000000 < id <= i64::MAX,
        decode_discriminator_spec(text) matches Ok(discriminator) ==> -999 <= discriminator
            <= 9999,
{
    if text.len() > 0 {
        let signed = text[0] == '+' || text[0] == '-';
        let digits = if signed {
            text.skip(1)
        } else {
            text
        };
        if digits.len() > 0 && all_digits(digits) {
            assert forall|i: int| 0 <= i < text.len() implies '\0' <= #[trigger] text[i]
                <= '\u{7f}' by {
                if signed {
                    if i > 0 {
                        assert(is_digit(digits[i - 1]));
                    }
                } else {
                    assert(is_digit(digits[i]));
                }
            }
            vstd::utf8::is_ascii_chars_encode_utf8(text);
            digits_stay_below_power(digits);
            assert(power_of_ten(18) == 1000000000000000000 && power_of_ten(4) == 10000
                && power_of_ten(3) == 1000) by {
                reveal_with_fuel(power_of_ten, 19);
            }
            if text.len() <= 19 {
                power_grows(digits.len(), 19);
                if signed {
                    power_grows(digits.len(), 18);
                }
            }
        }
    }
}

} // verus!
