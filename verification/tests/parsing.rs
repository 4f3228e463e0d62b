use textutils::headr::parse_positive_int;

#[test]
fn test_parse_positive_int() {
    // 3 is a good boy int
    let res = parse_positive_int("3");
    assert!(res.is_ok());
    assert_eq!(res.unwrap(), 3);

    // any string is an error
    let res = parse_positive_int("foo");
    assert!(res.is_err());
    assert_eq!(res.unwrap_err().to_string(), "foo".to_string());

    // a zero is an error
    let res = parse_positive_int("0");
    assert!(res.is_err());
    assert_eq!(res.unwrap_err().to_string(), "0".to_string());
}

#[test]
fn parse_accepts_a_leading_plus_and_leading_zeros() {
    assert_eq!(parse_positive_int("+5"), Ok(5));
    assert_eq!(parse_positive_int("007"), Ok(7));
    assert_eq!(parse_positive_int("10"), Ok(10));
    assert_eq!(parse_positive_int("1234567890"), Ok(1234567890));
}

#[test]
fn parse_refuses_what_is_no_number() {
    for text in ["", "+", "-", "-1", "+-1", "++1", "3.5", " 3", "3 ", "1_000", "0x10", "+0", "000"] {
        assert_eq!(parse_positive_int(text), Err(text.to_string()), "{:?}", text);
    }
}

#[test]
fn parse_refuses_digits_that_are_not_ascii() {
    assert_eq!(parse_positive_int("\u{ff13}"), Err("\u{ff13}".to_string()));
    assert_eq!(parse_positive_int("1\u{e9}"), Err("1\u{e9}".to_string()));
    assert_eq!(parse_positive_int("+\u{663}"), Err("+\u{663}".to_string()));
}

#[test]
fn parse_agrees_with_the_standard_parser_at_the_upper_end() {
    let largest = usize::MAX.to_string();
    assert_eq!(parse_positive_int(&largest), Ok(usize::MAX));
    let too_large = format!("{}0", largest);
    assert_eq!(parse_positive_int(&too_large), Err(too_large.clone()));
    let one_more = (usize::MAX as u128 + 1).to_string();
    assert_eq!(parse_positive_int(&one_more), Err(one_more.clone()));
    assert_eq!(parse_positive_int("99999999999999999999999999999999999999999"),
        Err("99999999999999999999999999999999999999999".to_string()));
}

#[test]
fn parse_agrees_with_the_standard_parser_on_a_sample() {
    let samples = ["1", "9", "12", "+12", "0012", "-12", "12a", "a12", "", "+", "18446744073709551615",
        "18446744073709551616", "4294967295", "4294967296", "1e3", "٣"];
    for text in samples {
        let expected = match text.parse::<usize>() {
            Ok(n) if n > 0 => Ok(n),
            _ => Err(text.to_string()),
        };
        assert_eq!(parse_positive_int(text), expected, "{:?}", text);
    }
}
