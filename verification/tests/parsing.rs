use pbinfo_api::check_authenticated_id;
use pbinfo_api::extract_user_id;
use pbinfo_api::i64_to_string;
use pbinfo_api::parse_i64;
use pbinfo_api::strip_quotes;
use pbinfo_api::try_get_ssid;
use pbinfo_api::LoginError;
use pbinfo_api::ParseIntFailure;

#[test]
fn parse_i64_plain_values() {
    assert_eq!(parse_i64("80"), Ok(80));
    assert_eq!(parse_i64("100"), Ok(100));
    assert_eq!(parse_i64("-2"), Ok(-2));
    assert_eq!(parse_i64("+5"), Ok(5));
    assert_eq!(parse_i64("0"), Ok(0));
    assert_eq!(parse_i64("007"), Ok(7));
}

#[test]
fn parse_i64_failures() {
    assert_eq!(parse_i64(""), Err(ParseIntFailure::Empty));
    assert_eq!(parse_i64("+"), Err(ParseIntFailure::InvalidDigit));
    assert_eq!(parse_i64("-"), Err(ParseIntFailure::InvalidDigit));
    assert_eq!(parse_i64("12a"), Err(ParseIntFailure::InvalidDigit));
    assert_eq!(parse_i64(" 5"), Err(ParseIntFailure::InvalidDigit));
}

#[test]
fn parse_i64_range_edges() {
    assert_eq!(parse_i64("9223372036854775807"), Ok(i64::MAX));
    assert_eq!(parse_i64("9223372036854775808"), Err(ParseIntFailure::PosOverflow));
    assert_eq!(parse_i64("-9223372036854775808"), Ok(i64::MIN));
    assert_eq!(parse_i64("-9223372036854775809"), Err(ParseIntFailure::NegOverflow));
}

#[test]
fn parse_i64_agrees_with_std() {
    for s in ["80", "100", "-2", "+5", "", "+", "12a", "99999999999999999999", "-0"] {
        let std_result = s.parse::<i64>();
        let ours = parse_i64(s);
        match (std_result, ours) {
            (Ok(a), Ok(b)) => assert_eq!(a, b),
            (Err(_), Err(_)) => (),
            (a, b) => panic!("mismatch on {:?}: std {:?}, library {:?}", s, a, b),
        }
    }
}

#[test]
fn i64_to_string_values() {
    assert_eq!(i64_to_string(0), "0");
    assert_eq!(i64_to_string(100), "100");
    assert_eq!(i64_to_string(-2), "-2");
    assert_eq!(i64_to_string(i64::MAX), "9223372036854775807");
    assert_eq!(i64_to_string(i64::MIN), "-9223372036854775808");
}

#[test]
fn strip_quotes_behaviour() {
    assert_eq!(strip_quotes("\"abc\""), "abc");
    assert_eq!(strip_quotes("abc"), "abc");
    assert_eq!(strip_quotes("\"\"\"x\"\""), "x");
    assert_eq!(strip_quotes("\"\""), "");
    assert_eq!(strip_quotes(""), "");
    // matches trimming all leading then all trailing quote characters
    let reference = "\"\"\"x\"\""
        .trim_start_matches('"')
        .trim_end_matches('"');
    assert_eq!(strip_quotes("\"\"\"x\"\""), reference);
}

#[test]
fn extract_user_id_finds_id() {
    let body = "<html>user_autentificat = {\"id\":12345,\"alt\":1}</html>";
    assert_eq!(extract_user_id(body).unwrap(), "12345");
}

#[test]
fn extract_user_id_zero_and_empty() {
    let body = "xuser_autentificat = {\"id\":0,rest";
    assert_eq!(extract_user_id(body).unwrap(), "0");
    let body2 = "xuser_autentificat = {\"id\":,rest";
    assert_eq!(extract_user_id(body2).unwrap(), "");
}

#[test]
fn extract_user_id_no_marker() {
    let r = extract_user_id("<html>nothing here</html>");
    assert!(matches!(r, Err(LoginError::ResponseParseError { .. })));
}

#[test]
fn extract_user_id_without_comma_takes_rest() {
    let body = "user_autentificat = {\"id\":777";
    assert_eq!(extract_user_id(body).unwrap(), "777");
}

#[test]
fn try_get_ssid_reads_first_segment() {
    let r = try_get_ssid(Some("SSID=abc123; path=/; HttpOnly"));
    assert_eq!(r.unwrap(), "abc123");
}

#[test]
fn try_get_ssid_takes_text_between_equals_signs() {
    let r = try_get_ssid(Some("SSID=abc=def; path=/"));
    assert_eq!(r.unwrap(), "abc");
}

#[test]
fn try_get_ssid_missing_header() {
    assert!(matches!(try_get_ssid(None), Err(LoginError::NoCookieError)));
}

#[test]
fn try_get_ssid_segment_without_equals() {
    let r = try_get_ssid(Some("garbage; path=/"));
    match r {
        Err(LoginError::CookieParseError { cookie, err }) => {
            assert_eq!(cookie, "garbage");
            assert_eq!(err, "Couldn't find anything after the '=' sign!");
        },
        other => panic!("expected a cookie parse failure, got {:?}", other),
    }
}

#[test]
fn authenticated_id_discriminant() {
    assert!(!check_authenticated_id(""));
    assert!(!check_authenticated_id("0"));
    assert!(check_authenticated_id("123"));
    assert!(check_authenticated_id("00"));
}
