use squrl::error::UrlShortenerError;
use squrl::validation::{validate_custom_code, validate_url};

#[test]
fn test_validate_url_valid() {
    assert!(validate_url("https://example.com").is_ok());
    assert!(validate_url("http://localhost:3000").is_ok());
}

#[test]
fn test_validate_url_invalid() {
    assert!(validate_url("ftp://example.com").is_err());
    assert!(validate_url("not-a-url").is_err());
}

#[test]
fn test_validate_url_error_variant() {
    let err = validate_url("ftp://example.com").unwrap_err();
    assert!(matches!(err, UrlShortenerError::InvalidUrl(_)));
    assert_eq!(err.status_code(), 400);
    assert_eq!(err.error_type(), "InvalidUrl");
}

#[test]
fn test_validate_custom_code_valid() {
    assert!(validate_custom_code("abc123").is_ok());
    assert!(validate_custom_code("test_code").is_ok());
    assert!(validate_custom_code("my-code").is_ok());
}

#[test]
fn test_validate_custom_code_invalid() {
    assert!(validate_custom_code("ab").is_err()); // Too short
    assert!(validate_custom_code("a".repeat(21).as_str()).is_err()); // Too long
    assert!(validate_custom_code("test@code").is_err()); // Invalid character
}

#[test]
fn test_validate_custom_code_error_variant() {
    let err = validate_custom_code("ab").unwrap_err();
    assert!(matches!(err, UrlShortenerError::ValidationError(_)));
    assert_eq!(err.status_code(), 400);
    assert_eq!(err.error_type(), "ValidationError");
}

#[test]
fn test_validate_custom_code_boundaries() {
    assert!(validate_custom_code("abc").is_ok()); // exactly 3
    assert!(validate_custom_code("a".repeat(20).as_str()).is_ok()); // exactly 20
    assert!(validate_custom_code("ümlaut").is_err()); // outside the charset
}
