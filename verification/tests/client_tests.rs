use discogs_tagger::dates::parse_ymd;
use discogs_tagger::discogs::{compute_delay, token_ok, Discogs, HttpResponse};
use discogs_tagger::json::parse_json;
use discogs_tagger::numbers::{i64_to_string, parse_i16, parse_i32};

#[test]
fn rate_limiter_spacing_at_sixty_per_minute() {
    // 60/minute means 1000 ms between requests; 500 ms have passed, so the
    // limiter asks for the remaining 500 plus the 10 ms margin
    assert_eq!(compute_delay(60, true, 1000, 1500), 510);
    // exactly on time and late calls wait nothing
    assert_eq!(compute_delay(60, true, 1000, 2000), 0);
    assert_eq!(compute_delay(60, true, 1000, 5000), 0);
}

#[test]
fn rate_limiter_disabled_never_delays() {
    assert_eq!(compute_delay(60, false, 1000, 1001), 0);
    assert_eq!(compute_delay(25, false, 1000, 1000), 0);
}

#[test]
fn rate_limiter_idle_before_first_request() {
    assert_eq!(compute_delay(60, true, 0, 12345), 0);
}

#[test]
fn rate_limiter_unauthenticated_spacing() {
    // 25/minute means 2400 ms between requests
    assert_eq!(compute_delay(25, true, 10000, 10000), 2410);
    assert_eq!(compute_delay(25, true, 10000, 12000), 410);
}

#[test]
fn new_client_has_no_token() {
    let d = Discogs::new().unwrap();
    assert!(d.token.is_none());
}

#[test]
fn authorize_stores_token() {
    let mut d = Discogs::new().unwrap();
    d.authorize_token("example-token".to_string());
    assert_eq!(d.token, Some("example-token".to_string()));
}

#[test]
fn json_parsing_accepts_documents_and_rejects_noise() {
    let body = b"{\"results\": []}".to_vec();
    assert!(parse_json(&body).is_some());
    let garbage = b"not json at all".to_vec();
    assert!(parse_json(&garbage).is_none());
}

#[test]
fn date_parsing_validates_calendar() {
    assert_eq!(parse_ymd("2021-05-07"), Some((2021, 5, 7)));
    assert_eq!(parse_ymd("2020-02-29"), Some((2020, 2, 29)));
    assert_eq!(parse_ymd("2021-02-29"), None);
    assert_eq!(parse_ymd("2000-02-29"), Some((2000, 2, 29)));
    assert_eq!(parse_ymd("1900-02-29"), None);
    assert_eq!(parse_ymd("2021-13-01"), None);
    assert_eq!(parse_ymd("2021-00-10"), None);
    assert_eq!(parse_ymd("2021-04-31"), None);
    assert_eq!(parse_ymd("2021-5-7"), None);
    assert_eq!(parse_ymd("21-05-07"), None);
}

#[test]
fn integer_parsing_matches_std_rules() {
    assert_eq!(parse_i32("123"), Some(123));
    assert_eq!(parse_i32("-45"), Some(-45));
    assert_eq!(parse_i32("+7"), Some(7));
    assert_eq!(parse_i32("0007"), Some(7));
    assert_eq!(parse_i32(""), None);
    assert_eq!(parse_i32("-"), None);
    assert_eq!(parse_i32("12a"), None);
    assert_eq!(parse_i32(" 1"), None);
    assert_eq!(parse_i32("2147483647"), Some(2147483647));
    assert_eq!(parse_i32("2147483648"), None);
    assert_eq!(parse_i32("-2147483648"), Some(-2147483648));
    assert_eq!(parse_i32("-2147483649"), None);
}

#[test]
fn short_integer_parsing_range() {
    assert_eq!(parse_i16("2021"), Some(2021));
    assert_eq!(parse_i16("32767"), Some(32767));
    assert_eq!(parse_i16("32768"), None);
    assert_eq!(parse_i16("-32768"), Some(-32768));
}

#[test]
fn integer_formatting() {
    assert_eq!(i64_to_string(0), "0");
    assert_eq!(i64_to_string(2021), "2021");
    assert_eq!(i64_to_string(-7), "-7");
    assert_eq!(i64_to_string(1234567890), "1234567890");
}

#[test]
fn token_check_is_exactly_ok_status() {
    assert!(token_ok(&HttpResponse { status: 200, body: vec![] }));
    assert!(!token_ok(&HttpResponse { status: 401, body: vec![] }));
    assert!(!token_ok(&HttpResponse { status: 404, body: b"{}".to_vec() }));
}
