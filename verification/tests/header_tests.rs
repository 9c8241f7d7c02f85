use ludownloader::util::supports_byte_ranges;
use reqwest::header::{self, HeaderMap, HeaderValue};

fn accept_ranges_value(headers: &HeaderMap) -> Option<&str> {
    headers
        .get(header::ACCEPT_RANGES)
        .and_then(|v| v.to_str().ok())
}

#[test]
fn mod_supports_bytes_test() {
    // Given
    let mut headermap = HeaderMap::new();
    // When
    headermap.insert(
        header::ACCEPT_RANGES,
        HeaderValue::from_str("bytes").unwrap(),
    );
    // Then
    assert!(
        supports_byte_ranges(accept_ranges_value(&headermap)),
        "HeaderMap should support bytes!"
    );
    // When
    headermap.insert(
        header::ACCEPT_RANGES,
        HeaderValue::from_str("something else").unwrap(),
    );
    // Then
    assert!(
        !supports_byte_ranges(accept_ranges_value(&headermap)),
        "HeaderMap shouldn't support bytes anymore!"
    );
}

#[test]
fn lib_supports_bytes_test() {
    let mut headermap = HeaderMap::new();
    headermap.insert(
        header::ACCEPT_RANGES,
        HeaderValue::from_str("bytes").unwrap(),
    );
    assert!(
        supports_byte_ranges(accept_ranges_value(&headermap)),
        "HeaderMap should support bytes!"
    );
    headermap.insert(
        header::ACCEPT_RANGES,
        HeaderValue::from_str("something else").unwrap(),
    );
    assert!(
        !supports_byte_ranges(accept_ranges_value(&headermap)),
        "HeaderMap shouldn't support bytes anymore!"
    );
}

#[test]
fn util_supports_bytes_test() {
    let mut headermap = HeaderMap::new();
    headermap.insert(
        header::ACCEPT_RANGES,
        HeaderValue::from_str("bytes").unwrap(),
    );
    assert!(
        supports_byte_ranges(accept_ranges_value(&headermap)),
        "HeaderMap should support bytes!"
    );
    headermap.insert(
        header::ACCEPT_RANGES,
        HeaderValue::from_str("something else").unwrap(),
    );
    assert!(
        !supports_byte_ranges(accept_ranges_value(&headermap)),
        "HeaderMap shouldn't support bytes anymore!"
    );
}

#[test]
fn supports_byte_ranges_absent_header() {
    assert!(!supports_byte_ranges(None));
}
