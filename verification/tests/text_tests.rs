use blog_core::text::{id_text, join, parse_i32, parse_i64, read_id, read_within, same_text, NumberFault};

#[test]
fn keys_are_written_in_base_ten() {
    assert_eq!(id_text(0), "0");
    assert_eq!(id_text(7), "7");
    assert_eq!(id_text(10), "10");
    assert_eq!(id_text(1905), "1905");
    assert_eq!(id_text(-1), "-1");
    assert_eq!(id_text(-120), "-120");
    assert_eq!(id_text(i32::MAX), "2147483647");
    assert_eq!(id_text(i32::MIN), "-2147483648");
}

#[test]
fn keys_are_read_from_sign_and_digits() {
    assert_eq!(read_id("0"), Some(0));
    assert_eq!(read_id("12"), Some(12));
    assert_eq!(read_id("+5"), Some(5));
    assert_eq!(read_id("-5"), Some(-5));
    assert_eq!(read_id("-0"), Some(0));
    assert_eq!(read_id("007"), Some(7));
    assert_eq!(read_id("2147483647"), Some(i32::MAX));
    assert_eq!(read_id("-2147483648"), Some(i32::MIN));
}

#[test]
fn other_texts_write_no_key() {
    assert_eq!(read_id(""), None);
    assert_eq!(read_id("-"), None);
    assert_eq!(read_id("+"), None);
    assert_eq!(read_id("+-5"), None);
    assert_eq!(read_id("--5"), None);
    assert_eq!(read_id(" 5"), None);
    assert_eq!(read_id("5 "), None);
    assert_eq!(read_id("5a"), None);
    assert_eq!(read_id("1_000"), None);
    assert_eq!(read_id("1.0"), None);
    assert_eq!(read_id("\u{ff11}\u{ff12}"), None);
    assert_eq!(read_id("2147483648"), None);
    assert_eq!(read_id("-2147483649"), None);
    assert_eq!(read_id("99999999999999999999"), None);
}

#[test]
fn a_written_key_reads_back() {
    for v in [0, 1, -1, 9, 10, 99, 100, -100, 123456789, i32::MAX, i32::MIN, i32::MIN + 1] {
        assert_eq!(read_id(&id_text(v)), Some(v));
    }
}

#[test]
fn texts_are_compared_and_joined_by_their_characters() {
    assert!(same_text("true", "true"));
    assert!(!same_text("true", "True"));
    assert!(!same_text("true", "true "));
    assert!(same_text("", ""));
    assert_eq!(join("ab", "cd"), "abcd");
    assert_eq!(join("", "x"), "x");
}

const SAMPLES: [&str; 40] = [
    "",
    "0",
    "-0",
    "+0",
    "7",
    "42",
    "-42",
    "+42",
    "0042",
    "-",
    "+",
    "--1",
    "++1",
    "+-1",
    "1-",
    " 1",
    "1 ",
    "1a",
    "a1",
    "0x10",
    "1_000",
    "1.5",
    "1e3",
    "2147483647",
    "2147483648",
    "-2147483648",
    "-2147483649",
    "9223372036854775807",
    "9223372036854775808",
    "-9223372036854775808",
    "-9223372036854775809",
    "99999999999999999999999999",
    "-99999999999999999999999999",
    "99999999999x",
    "9x9999999999",
    "-99999999999x",
    "00000000000000000000000000000001",
    "\u{663}",
    "1\u{0}",
    "\u{ff11}",
];

#[test]
fn reading_an_i32_agrees_with_the_standard_library() {
    for text in SAMPLES {
        let ours = parse_i32(text).map_err(|fault| fault.description().to_string());
        let theirs = text.parse::<i32>().map_err(|fault| fault.to_string());
        assert_eq!(ours, theirs, "for {:?}", text);
    }
}

#[test]
fn reading_an_i64_agrees_with_the_standard_library() {
    for text in SAMPLES {
        let ours = parse_i64(text).map_err(|fault| fault.description().to_string());
        let theirs = text.parse::<i64>().map_err(|fault| fault.to_string());
        assert_eq!(ours, theirs, "for {:?}", text);
    }
}

#[test]
fn each_fault_of_a_number_has_its_input() {
    assert_eq!(parse_i32(""), Err(NumberFault::Empty));
    assert_eq!(parse_i32("-"), Err(NumberFault::InvalidDigit));
    assert_eq!(parse_i32("12a"), Err(NumberFault::InvalidDigit));
    assert_eq!(parse_i32("2147483648"), Err(NumberFault::TooLarge));
    assert_eq!(parse_i32("-2147483649"), Err(NumberFault::TooSmall));
    assert_eq!(parse_i32("99999999999x"), Err(NumberFault::TooLarge));
    assert_eq!(parse_i32("9x9999999999"), Err(NumberFault::InvalidDigit));
    assert_eq!(parse_i32("2147483647"), Ok(i32::MAX));
    assert_eq!(parse_i64("-9223372036854775808"), Ok(i64::MIN));
    assert_eq!(NumberFault::Empty.description(), "cannot parse integer from empty string");
    assert_eq!(NumberFault::InvalidDigit.description(), "invalid digit found in string");
    assert_eq!(NumberFault::TooLarge.description(), "number too large to fit in target type");
    assert_eq!(NumberFault::TooSmall.description(), "number too small to fit in target type");
}

#[test]
fn a_number_is_read_within_its_range() {
    assert_eq!(read_within("5", 0, 9), Ok(5));
    assert_eq!(read_within("9", 0, 9), Ok(9));
    assert_eq!(read_within("10", 0, 9), Err(NumberFault::TooLarge));
    assert_eq!(read_within("-1", 0, 9), Err(NumberFault::TooSmall));
    assert_eq!(read_within("-0", 0, 9), Ok(0));
    assert_eq!(read_within("-3", -3, 0), Ok(-3));
    assert_eq!(read_within("-4", -3, 0), Err(NumberFault::TooSmall));
    assert_eq!(read_within("1", -3, 0), Err(NumberFault::TooLarge));
    assert_eq!(read_within("0", 0, 0), Ok(0));
}

#[test]
fn each_kind_of_unreadable_number_is_worded_as_by_the_standard_library() {
    let kinds = [
        ("", NumberFault::Empty),
        ("-", NumberFault::InvalidDigit),
        ("+", NumberFault::InvalidDigit),
        ("12x", NumberFault::InvalidDigit),
        ("99999999999999999999", NumberFault::TooLarge),
        ("-99999999999999999999", NumberFault::TooSmall),
    ];
    for (text, fault) in kinds {
        assert_eq!(parse_i32(text), Err(fault), "for {:?}", text);
        assert_eq!(parse_i64(text), Err(fault), "for {:?}", text);
        assert_eq!(fault.description(), text.parse::<i32>().unwrap_err().to_string(), "for {:?}", text);
        assert_eq!(fault.description(), text.parse::<i64>().unwrap_err().to_string(), "for {:?}", text);
    }
    for text in ["0", "-0", "+7", "007", "2147483647", "-2147483648"] {
        assert_eq!(parse_i32(text).ok(), text.parse::<i32>().ok(), "for {:?}", text);
        assert_eq!(parse_i64(text).ok(), text.parse::<i64>().ok(), "for {:?}", text);
    }
}
