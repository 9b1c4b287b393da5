use squrl::error::UrlShortenerError;
use squrl::models::{CreateUrlRequest, RedirectRequest};
use squrl::resolver::{create_url_impl, redirect_impl, stats_impl};
use squrl::store::DynamoDbClient;

const NOW: i64 = 1_700_000_000;
const BASE: &str = "https://sqrl.co";

fn create_req(url: &str, custom: Option<&str>, ttl: Option<u32>) -> CreateUrlRequest {
    CreateUrlRequest {
        original_url: url.to_string(),
        custom_code: custom.map(|s| s.to_string()),
        ttl_hours: ttl,
    }
}

fn redirect_req(code: &str) -> RedirectRequest {
    RedirectRequest {
        short_code: code.to_string(),
        client_ip: Some("192.168.1.1".to_string()),
        user_agent: Some("Mozilla/5.0".to_string()),
        referer: Some("https://social.com".to_string()),
    }
}

#[test]
fn test_create_then_resolve_dedups() {
    // End to end: create without custom code, resolve, create again.
    let mut store = DynamoDbClient::new("squrl-urls".to_string());
    let resp = create_url_impl(
        create_req("https://example.com/a", None, None),
        &mut store,
        NOW,
        BASE,
    )
    .unwrap();
    assert_eq!(resp.short_code.len(), 8);
    assert!(
        resp.short_code
            .chars()
            .all(|c| c.is_ascii_alphanumeric() || c == '_' || c == '-')
    );
    assert_eq!(resp.original_url, "https://example.com/a");
    assert_eq!(resp.short_url, format!("{}/{}", BASE, resp.short_code));
    assert_eq!(resp.expires_at, None);
    assert_eq!(store.len(), 1);

    let got = store.get_url(&resp.short_code, NOW).unwrap().unwrap();
    assert_eq!(got.original_url, "https://example.com/a");
    assert_eq!(got.status, "active");
    assert!(!got.custom_code);

    // A second create with the same URL returns the identical code and does
    // not create a second record.
    let resp2 = create_url_impl(
        create_req("https://example.com/a", None, None),
        &mut store,
        NOW + 10,
        BASE,
    )
    .unwrap();
    assert_eq!(resp2.short_code, resp.short_code);
    assert_eq!(store.len(), 1);
}

#[test]
fn test_create_custom_code_flow() {
    // A 2-character custom code is rejected; a valid one succeeds; reusing
    // it for a different URL is a conflict.
    let mut store = DynamoDbClient::new("squrl-urls".to_string());
    let r = create_url_impl(create_req("https://example.com", Some("ab"), None), &mut store, NOW, BASE);
    assert!(matches!(r, Err(UrlShortenerError::ValidationError(_))));
    assert_eq!(store.len(), 0);

    let resp =
        create_url_impl(create_req("https://example.com", Some("promo1"), None), &mut store, NOW, BASE)
            .unwrap();
    assert_eq!(resp.short_code, "promo1");
    assert_eq!(resp.short_url, "https://sqrl.co/promo1");

    let r2 =
        create_url_impl(create_req("https://other.example", Some("promo1"), None), &mut store, NOW, BASE);
    match r2 {
        Err(UrlShortenerError::ShortCodeExists(code)) => assert_eq!(code, "promo1"),
        _ => panic!("expected ShortCodeExists"),
    }
    assert_eq!(store.len(), 1);
}

#[test]
fn test_create_rejects_bad_url() {
    let mut store = DynamoDbClient::new("t".to_string());
    let r = create_url_impl(create_req("ftp://example.com", None, None), &mut store, NOW, BASE);
    assert!(matches!(r, Err(UrlShortenerError::InvalidUrl(_))));
    let r = create_url_impl(create_req("not-a-url", None, None), &mut store, NOW, BASE);
    assert!(matches!(r, Err(UrlShortenerError::InvalidUrl(_))));
    assert_eq!(store.len(), 0);
}

#[test]
fn test_create_rejects_bad_ttl() {
    let mut store = DynamoDbClient::new("t".to_string());
    let r = create_url_impl(create_req("https://example.com", None, Some(0)), &mut store, NOW, BASE);
    assert!(matches!(r, Err(UrlShortenerError::ValidationError(_))));
    let r = create_url_impl(create_req("https://example.com", None, Some(87601)), &mut store, NOW, BASE);
    assert!(matches!(r, Err(UrlShortenerError::ValidationError(_))));
}

#[test]
fn test_create_with_ttl_then_expire() {
    // Create with a one-hour time to live, then advance the clock past it.
    let mut store = DynamoDbClient::new("t".to_string());
    let resp =
        create_url_impl(create_req("https://example.com", Some("lapses"), Some(1)), &mut store, NOW, BASE)
            .unwrap();
    // The creation instant and the expiry render as RFC 3339.
    assert_eq!(resp.created_at, "2023-11-14T22:13:20+00:00");
    assert_eq!(resp.expires_at.as_deref(), Some("2023-11-14T23:13:20+00:00"));

    // Before the hour has passed the record resolves.
    assert!(stats_impl("lapses", &store, NOW + 3599).is_ok());
    // Past the hour every lookup reports Expired, never the URL.
    match stats_impl("lapses", &store, NOW + 3601) {
        Err(UrlShortenerError::UrlExpired) => {},
        _ => panic!("expected UrlExpired"),
    }
    match redirect_impl(redirect_req("lapses"), &mut store, NOW + 3601, false) {
        Err(UrlShortenerError::UrlExpired) => {},
        _ => panic!("expected UrlExpired"),
    }
}

#[test]
fn test_redirect_counts_clicks_and_emits() {
    let mut store = DynamoDbClient::new("t".to_string());
    create_url_impl(create_req("https://example.com", Some("counted"), None), &mut store, NOW, BASE)
        .unwrap();

    let (resp, event) = redirect_impl(redirect_req("counted"), &mut store, NOW, false).unwrap();
    assert_eq!(resp.original_url, "https://example.com");
    assert_eq!(resp.redirect_type, "301");
    let event = event.unwrap();
    assert_eq!(event.short_code, "counted");
    assert_eq!(event.timestamp, "2023-11-14T22:13:20+00:00");
    assert_eq!(event.client_ip.as_deref(), Some("192.168.1.1"));
    assert_eq!(event.user_agent.as_deref(), Some("Mozilla/5.0"));
    assert_eq!(event.referer.as_deref(), Some("https://social.com"));
    assert_eq!(event.country, None);
    assert_eq!(event.city, None);

    let stats = stats_impl("counted", &store, NOW).unwrap();
    assert_eq!(stats.click_count, 1);

    // Several further redirects: every click is counted.
    for _ in 0..4 {
        redirect_impl(redirect_req("counted"), &mut store, NOW, false).unwrap();
    }
    let stats = stats_impl("counted", &store, NOW).unwrap();
    assert_eq!(stats.click_count, 5);
}

#[test]
fn test_redirect_head_skips_side_effects() {
    let mut store = DynamoDbClient::new("t".to_string());
    create_url_impl(create_req("https://example.com", Some("headed"), None), &mut store, NOW, BASE)
        .unwrap();
    let (resp, event) = redirect_impl(redirect_req("headed"), &mut store, NOW, true).unwrap();
    assert_eq!(resp.original_url, "https://example.com");
    assert!(event.is_none());
    let stats = stats_impl("headed", &store, NOW).unwrap();
    assert_eq!(stats.click_count, 0);
}

#[test]
fn test_redirect_not_found() {
    let mut store = DynamoDbClient::new("t".to_string());
    match redirect_impl(redirect_req("abc123"), &mut store, NOW, false) {
        Err(UrlShortenerError::ShortCodeNotFound(code)) => {
            assert_eq!(code, "abc123");
        },
        _ => panic!("expected ShortCodeNotFound"),
    }
}

#[test]
fn test_stats_reports_record() {
    let mut store = DynamoDbClient::new("t".to_string());
    create_url_impl(create_req("https://example.com", Some("stats1"), Some(2)), &mut store, NOW, BASE)
        .unwrap();
    let stats = stats_impl("stats1", &store, NOW).unwrap();
    assert_eq!(stats.short_code, "stats1");
    assert_eq!(stats.original_url, "https://example.com");
    assert_eq!(stats.click_count, 0);
    assert_eq!(stats.created_at, "2023-11-14T22:13:20+00:00");
    assert_eq!(stats.expires_at, Some(NOW + 7200));

    match stats_impl("missing", &store, NOW) {
        Err(UrlShortenerError::ShortCodeNotFound(code)) => assert_eq!(code, "missing"),
        _ => panic!("expected ShortCodeNotFound"),
    }
}

#[test]
fn test_error_status_codes() {
    assert_eq!(UrlShortenerError::InvalidUrl(String::new()).status_code(), 400);
    assert_eq!(UrlShortenerError::ShortCodeExists(String::new()).status_code(), 409);
    assert_eq!(UrlShortenerError::ShortCodeNotFound(String::new()).status_code(), 404);
    assert_eq!(UrlShortenerError::UrlExpired.status_code(), 410);
    assert_eq!(UrlShortenerError::DatabaseError(String::new()).status_code(), 500);
    assert_eq!(UrlShortenerError::RateLimitExceeded.status_code(), 429);
    assert_eq!(UrlShortenerError::UrlExpired.error_type(), "Gone");
    assert_eq!(UrlShortenerError::ShortCodeExists(String::new()).error_type(), "ConflictError");
    assert_eq!(UrlShortenerError::ShortCodeNotFound(String::new()).error_type(), "NotFound");
}
