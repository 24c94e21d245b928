use valyou::entries::split_tags;
use valyou::idtext::{
    decode_discriminator, decode_id, encode_discriminator, encode_id, IdTextError,
};
use valyou::profiles::{like_pattern, search_count, Profile, Username, PROFILE_JOURNALS};
use valyou::text::{bytes_equal, text_equal};

#[test]
fn identifiers_are_written_as_nineteen_digits() {
    assert_eq!(encode_id(0), Ok("0000000000000000000".to_string()));
    assert_eq!(encode_id(7), Ok("0000000000000000007".to_string()));
    assert_eq!(encode_id(1234567890), Ok("0000000001234567890".to_string()));
    assert_eq!(encode_id(i64::MAX), Ok("9223372036854775807".to_string()));
    assert_eq!(encode_id(-1), Err(IdTextError::Negative));
    assert_eq!(encode_id(i64::MIN), Err(IdTextError::Negative));
}

#[test]
fn identifiers_are_read_as_decimal_numbers() {
    assert_eq!(decode_id("0000000000000000007"), Ok(7));
    assert_eq!(decode_id("7"), Ok(7));
    assert_eq!(decode_id("0"), Ok(0));
    assert_eq!(decode_id("+15"), Ok(15));
    assert_eq!(decode_id("-15"), Ok(-15));
    assert_eq!(decode_id("-0"), Ok(0));
    assert_eq!(decode_id("9223372036854775807"), Ok(i64::MAX));
    assert_eq!(decode_id("-922337203685477580"), Ok(-922337203685477580));
}

#[test]
fn identifiers_come_back_from_their_text() {
    for id in [0, 1, 9, 10, 99, 12345, 1 << 40, i64::MAX - 1, i64::MAX] {
        assert_eq!(decode_id(&encode_id(id).unwrap()), Ok(id));
    }
}

#[test]
fn identifier_texts_that_are_refused() {
    assert_eq!(decode_id(""), Err(IdTextError::Empty));
    assert_eq!(decode_id("+"), Err(IdTextError::InvalidDigit));
    assert_eq!(decode_id("-"), Err(IdTextError::InvalidDigit));
    assert_eq!(decode_id("12a"), Err(IdTextError::InvalidDigit));
    assert_eq!(decode_id(" 12"), Err(IdTextError::InvalidDigit));
    assert_eq!(decode_id("12 "), Err(IdTextError::InvalidDigit));
    assert_eq!(decode_id("1+2"), Err(IdTextError::InvalidDigit));
    assert_eq!(decode_id("--1"), Err(IdTextError::InvalidDigit));
    assert_eq!(decode_id("\u{e9}"), Err(IdTextError::InvalidDigit));
    assert_eq!(decode_id("1\u{663}"), Err(IdTextError::InvalidDigit));
    assert_eq!(decode_id("9223372036854775808"), Err(IdTextError::PosOverflow));
    assert_eq!(decode_id("9999999999999999999"), Err(IdTextError::PosOverflow));
    assert_eq!(decode_id("00000000000000000007"), Err(IdTextError::TooLong));
    assert_eq!(decode_id("-9223372036854775808"), Err(IdTextError::TooLong));
    assert_eq!(decode_id("\u{e9}\u{e9}\u{e9}\u{e9}\u{e9}\u{e9}\u{e9}\u{e9}\u{e9}\u{e9}"), Err(IdTextError::TooLong));
}

#[test]
fn identifiers_are_read_as_the_standard_parser_reads_them() {
    for text in [
        "", "0", "-", "+", "+0", "-7", "0042", "12x", "x12", "9223372036854775807",
        "9223372036854775808", "999999999999999999", "-999999999999999999", "1_000", "٣",
    ] {
        if text.len() <= 19 {
            assert_eq!(decode_id(text).ok(), text.parse::<i64>().ok(), "{:?}", text);
        }
    }
    for text in ["", "0000", "9999", "-999", "+999", "12a4", "1234", "-12x", "٣٣"] {
        if text.len() == 4 {
            assert_eq!(decode_discriminator(text).ok(), text.parse::<i16>().ok(), "{:?}", text);
        }
    }
}

#[test]
fn discriminators_are_written_as_four_digits() {
    assert_eq!(encode_discriminator(0), Ok("0000".to_string()));
    assert_eq!(encode_discriminator(42), Ok("0042".to_string()));
    assert_eq!(encode_discriminator(9999), Ok("9999".to_string()));
    assert_eq!(encode_discriminator(10000), Err(IdTextError::OutOfRange));
    assert_eq!(encode_discriminator(-1), Err(IdTextError::OutOfRange));
    assert_eq!(encode_discriminator(i16::MAX), Err(IdTextError::OutOfRange));
}

#[test]
fn discriminators_are_read_from_four_bytes() {
    assert_eq!(decode_discriminator("0000"), Ok(0));
    assert_eq!(decode_discriminator("0042"), Ok(42));
    assert_eq!(decode_discriminator("9999"), Ok(9999));
    assert_eq!(decode_discriminator("-123"), Ok(-123));
    assert_eq!(decode_discriminator("+123"), Ok(123));
    assert_eq!(decode_discriminator("42"), Err(IdTextError::WrongLength));
    assert_eq!(decode_discriminator(""), Err(IdTextError::WrongLength));
    assert_eq!(decode_discriminator("00042"), Err(IdTextError::WrongLength));
    assert_eq!(decode_discriminator("12a4"), Err(IdTextError::InvalidDigit));
    assert_eq!(decode_discriminator("\u{e9}\u{e9}"), Err(IdTextError::InvalidDigit));
    for d in [0, 1, 10, 100, 1000, 4711, 9999] {
        assert_eq!(decode_discriminator(&encode_discriminator(d).unwrap()), Ok(d));
    }
}

#[test]
fn id_text_errors_in_words() {
    assert_eq!(IdTextError::Negative.message(), "expected value > 0");
    assert_eq!(IdTextError::OutOfRange.message(), "expected value to be within [0, 10000)");
    assert_eq!(IdTextError::TooLong.message(), "expected string with max length 19");
    assert_eq!(IdTextError::WrongLength.message(), "expected string of length 4");
    assert_eq!(IdTextError::Empty.message(), "cannot parse integer from empty string");
    assert_eq!(IdTextError::InvalidDigit.message(), "invalid digit found in string");
    assert_eq!(IdTextError::PosOverflow.message(), "number too large to fit in target type");
    assert_eq!(
        IdTextError::InvalidDigit.message(),
        "x".parse::<i64>().unwrap_err().to_string()
    );
    assert_eq!(IdTextError::Empty.message(), "".parse::<i64>().unwrap_err().to_string());
    assert_eq!(
        IdTextError::PosOverflow.message(),
        "9223372036854775808".parse::<i64>().unwrap_err().to_string()
    );
}

#[test]
fn tags_are_split_at_commas() {
    assert_eq!(split_tags("rust,verus,proofs"), vec!["rust", "verus", "proofs"]);
    assert_eq!(split_tags("one"), vec!["one"]);
    assert_eq!(split_tags(""), vec![""]);
    assert_eq!(split_tags(","), vec!["", ""]);
    assert_eq!(split_tags("a,,b"), vec!["a", "", "b"]);
    assert_eq!(split_tags("a,b,"), vec!["a", "b", ""]);
    assert_eq!(split_tags(" a , b "), vec![" a ", " b "]);
    assert_eq!(split_tags("caf\u{e9},na\u{ef}ve"), vec!["caf\u{e9}", "na\u{ef}ve"]);
    for list in ["", ",", "x,y", ",,x,", "no commas here"] {
        let expected: Vec<String> = list.split(',').map(|s| s.to_string()).collect();
        assert_eq!(split_tags(list), expected);
    }
}

#[test]
fn like_pattern_escapes_percent_signs() {
    assert_eq!(like_pattern("ann"), "%ann%");
    assert_eq!(like_pattern(""), "%%");
    assert_eq!(like_pattern("100%"), "%100\\%%");
    assert_eq!(like_pattern("%a%b"), "%\\%a\\%b%");
    assert_eq!(like_pattern("a_b\\c"), "%a_b\\c%");
    assert_eq!(like_pattern("z\u{fc}rich"), "%z\u{fc}rich%");
    for q in ["", "%", "%%", "50% off", "plain"] {
        assert_eq!(like_pattern(q), format!("%{}%", q.replace('%', "\\%")));
    }
}

#[test]
fn search_count_is_capped() {
    assert_eq!(search_count(10), 10);
    assert_eq!(search_count(30), 30);
    assert_eq!(search_count(31), 30);
    assert_eq!(search_count(1000), 30);
    assert_eq!(search_count(0), 0);
    assert_eq!(PROFILE_JOURNALS, 10);
}

#[test]
fn profile_is_built_from_its_columns() {
    let profile = Profile::new(
        5,
        "ann".to_string(),
        42,
        Some("hello".to_string()),
        None,
    );
    assert_eq!(
        profile,
        Profile {
            userid: 5,
            username: Username { username: "ann".to_string(), discriminator: 42 },
            summary: Some("hello".to_string()),
            bio: None,
        }
    );
}

#[test]
fn bytes_and_texts_are_compared_by_content() {
    assert!(bytes_equal(b"", b""));
    assert!(bytes_equal(b"abc", b"abc"));
    assert!(!bytes_equal(b"abc", b"abd"));
    assert!(!bytes_equal(b"abc", b"ab"));
    assert!(!bytes_equal(b"", b"a"));
    assert!(text_equal("caf\u{e9}", "caf\u{e9}"));
    assert!(!text_equal("cafe", "caf\u{e9}"));
    assert!(text_equal("", ""));
}
