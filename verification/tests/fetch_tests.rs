use resourcer::FetchError;
use resourcer::validate_url;

#[test]
fn invalid_scheme() {
    match validate_url("ftp://example.com") {
        Err(FetchError::UnsupportedScheme(s)) => assert_eq!(s, "ftp"),
        other => panic!("expected an unsupported-scheme error, got {:?}", other),
    }
}

#[test]
fn valid_http_and_https() {
    assert_eq!(validate_url("https://example.com").unwrap(), "https://example.com/");
    assert_eq!(validate_url("http://example.com/a?b=c").unwrap(), "http://example.com/a?b=c");
}

#[test]
fn unparseable_url() {
    assert!(matches!(validate_url("not a url"), Err(FetchError::UrlParse)));
}

#[test]
fn retry_classification() {
    assert!(resourcer::fetch::is_retryable(&FetchError::Timeout));
    assert!(resourcer::fetch::is_retryable(&FetchError::Network("reset".to_string())));
    assert!(!resourcer::fetch::is_retryable(&FetchError::HttpStatus(500)));
    assert!(!resourcer::fetch::is_retryable(&FetchError::UrlParse));
}

#[test]
fn backoff_doubles_and_saturates() {
    assert_eq!(resourcer::fetch::initial_backoff_ms(), 200);
    assert_eq!(resourcer::fetch::next_backoff_ms(200), 400);
    assert_eq!(resourcer::fetch::next_backoff_ms(400), 800);
    assert_eq!(resourcer::fetch::next_backoff_ms(u64::MAX), u64::MAX);
}

#[test]
fn status_policy() {
    assert!(resourcer::fetch::status_is_success(200));
    assert!(resourcer::fetch::status_is_success(204));
    assert!(!resourcer::fetch::status_is_success(404));
    assert!(!resourcer::fetch::status_is_success(199));
    assert!(!resourcer::fetch::status_is_success(300));
    assert!(resourcer::fetch::status_needs_get_fallback(405));
    assert!(!resourcer::fetch::status_needs_get_fallback(404));
}

#[test]
fn exhausted_attempts_report_last_error() {
    let last = resourcer::fetch::exhausted_error(Some(FetchError::Network("down".to_string())));
    assert!(matches!(last, FetchError::Network(_)));
    let none = resourcer::fetch::exhausted_error(None);
    assert!(matches!(none, FetchError::Timeout));
}
