use squrl::codegen::{generate, generate_short_code};
use squrl::error::UrlShortenerError;

#[test]
fn test_generate_short_code() {
    let code = generate_short_code();
    assert_eq!(code.len(), 8);
    assert!(
        code.chars()
            .all(|c| c.is_ascii_alphanumeric() || c == '_' || c == '-')
    );
}

#[test]
fn test_generate_custom_code_verbatim() {
    let r = generate(Some("promo1".to_string()));
    assert_eq!(r.unwrap(), "promo1");
}

#[test]
fn test_generate_custom_code_rejected() {
    let r = generate(Some("ab".to_string()));
    assert!(matches!(r, Err(UrlShortenerError::ValidationError(_))));
    let r = generate(Some("bad code!".to_string()));
    assert!(matches!(r, Err(UrlShortenerError::ValidationError(_))));
}

#[test]
fn test_generate_without_custom_code() {
    let code = generate(None).unwrap();
    assert_eq!(code.len(), 8);
    assert!(
        code.chars()
            .all(|c| c.is_ascii_alphanumeric() || c == '_' || c == '-')
    );
}
