use squrl::attrs::{url_item_to_attrs, AttrValue};
use squrl::decimal::{i64_to_dec_string, parse_i64, parse_u64, u64_to_dec_string};
use squrl::error::UrlShortenerError;
use squrl::models::UrlItem;
use squrl::store::DynamoDbClient;

fn sample_item(code: &str, url: &str, expires_at: Option<i64>) -> UrlItem {
    UrlItem {
        short_code: code.to_string(),
        original_url: url.to_string(),
        created_at: "2025-08-24T10:30:00+00:00".to_string(),
        expires_at,
        click_count: 0,
        custom_code: false,
        status: "active".to_string(),
    }
}

#[test]
fn test_put_and_get() {
    let mut store = DynamoDbClient::new("squrl-urls".to_string());
    assert_eq!(store.table_name(), "squrl-urls");
    assert_eq!(store.len(), 0);
    store.put_url(&sample_item("abc123", "https://example.com", None)).unwrap();
    assert_eq!(store.len(), 1);
    let got = store.get_url("abc123", 1_700_000_000).unwrap().unwrap();
    assert_eq!(got.original_url, "https://example.com");
    assert_eq!(got.click_count, 0);
    assert!(store.get_url("missing", 1_700_000_000).unwrap().is_none());
}

#[test]
fn test_conditional_create_one_winner() {
    // Several creates racing for one code: exactly one success, the rest
    // lose with the store unchanged.
    let mut store = DynamoDbClient::new("t".to_string());
    let a = sample_item("race01", "https://a.example", None);
    let b = sample_item("race01", "https://b.example", None);
    let c = sample_item("race01", "https://c.example", None);
    let results = [store.put_url(&a), store.put_url(&b), store.put_url(&c)];
    let wins = results.iter().filter(|r| r.is_ok()).count();
    assert_eq!(wins, 1);
    assert!(results[0].is_ok());
    match &results[1] {
        Err(UrlShortenerError::ShortCodeExists(code)) => assert_eq!(code, "race01"),
        other => panic!("expected ShortCodeExists, got {:?}", other.is_ok()),
    }
    assert_eq!(store.len(), 1);
    // The surviving record is the winner's.
    let got = store.get_url("race01", 0).unwrap().unwrap();
    assert_eq!(got.original_url, "https://a.example");
}

#[test]
fn test_increment_click_count_n_times() {
    // n increments raise the counter by exactly n.
    let mut store = DynamoDbClient::new("t".to_string());
    store.put_url(&sample_item("clicks", "https://example.com", None)).unwrap();
    for _ in 0..5 {
        store.increment_click_count("clicks").unwrap();
    }
    let got = store.get_url("clicks", 0).unwrap().unwrap();
    assert_eq!(got.click_count, 5);
}

#[test]
fn test_increment_missing_code_is_tolerated() {
    let mut store = DynamoDbClient::new("t".to_string());
    assert!(store.increment_click_count("nothere").is_ok());
    assert_eq!(store.len(), 0);
}

#[test]
fn test_get_url_expiry() {
    let mut store = DynamoDbClient::new("t".to_string());
    store.put_url(&sample_item("willlapse", "https://example.com", Some(1000))).unwrap();
    // Not yet expired: at or before the expiry instant the record is served.
    assert!(store.get_url("willlapse", 999).unwrap().is_some());
    assert!(store.get_url("willlapse", 1000).unwrap().is_some());
    // Past the expiry instant the lookup reports Expired, never the record.
    match store.get_url("willlapse", 1001) {
        Err(UrlShortenerError::UrlExpired) => {},
        _ => panic!("expected UrlExpired"),
    }
    // A record without expiry never lapses.
    store.put_url(&sample_item("forever", "https://example.org", None)).unwrap();
    assert!(store.get_url("forever", i64::MAX).unwrap().is_some());
}

#[test]
fn test_find_existing_url() {
    let mut store = DynamoDbClient::new("t".to_string());
    assert!(store.find_existing_url("https://example.com").unwrap().is_none());
    store.put_url(&sample_item("first1", "https://example.com", None)).unwrap();
    store.put_url(&sample_item("second", "https://other.example", None)).unwrap();
    let found = store.find_existing_url("https://example.com").unwrap().unwrap();
    assert_eq!(found.short_code, "first1");
}

#[test]
fn test_item_marshalling_round_trip() {
    let store = DynamoDbClient::new("t".to_string());
    let item = UrlItem {
        short_code: "abc123".to_string(),
        original_url: "https://example.com".to_string(),
        created_at: "2025-08-24T10:30:00+00:00".to_string(),
        expires_at: Some(-12345),
        click_count: 42,
        custom_code: true,
        status: "active".to_string(),
    };
    let attrs = url_item_to_attrs(&item);
    let back = store.item_to_url_item(&attrs).unwrap();
    assert_eq!(back.short_code, item.short_code);
    assert_eq!(back.original_url, item.original_url);
    assert_eq!(back.created_at, item.created_at);
    assert_eq!(back.expires_at, item.expires_at);
    assert_eq!(back.click_count, item.click_count);
    assert_eq!(back.custom_code, item.custom_code);
    assert_eq!(back.status, item.status);
}

#[test]
fn test_item_from_attrs_defaults() {
    let store = DynamoDbClient::new("t".to_string());
    let attrs = vec![
        ("short_code".to_string(), AttrValue::S("abc123".to_string())),
        ("original_url".to_string(), AttrValue::S("https://example.com".to_string())),
        ("created_at".to_string(), AttrValue::S("2025-08-24T10:30:00+00:00".to_string())),
    ];
    let item = store.item_to_url_item(&attrs).unwrap();
    assert_eq!(item.expires_at, None);
    assert_eq!(item.click_count, 0);
    assert!(!item.custom_code);
    assert_eq!(item.status, "active");
}

#[test]
fn test_item_from_attrs_missing_required() {
    let store = DynamoDbClient::new("t".to_string());
    let attrs = vec![("short_code".to_string(), AttrValue::S("abc123".to_string()))];
    let r = store.item_to_url_item(&attrs);
    assert!(matches!(r, Err(UrlShortenerError::InternalError(_))));
}

#[test]
fn test_decimal_rendering_and_parsing() {
    assert_eq!(u64_to_dec_string(0), "0");
    assert_eq!(u64_to_dec_string(18446744073709551615), "18446744073709551615");
    assert_eq!(i64_to_dec_string(-9223372036854775808), "-9223372036854775808");
    assert_eq!(parse_u64("007"), Some(7));
    assert_eq!(parse_u64("+42"), Some(42));
    assert_eq!(parse_u64("18446744073709551615"), Some(u64::MAX));
    assert_eq!(parse_u64("18446744073709551616"), None);
    assert_eq!(parse_u64("1x"), None);
    assert_eq!(parse_u64(""), None);
    assert_eq!(parse_i64("-9223372036854775808"), Some(i64::MIN));
    assert_eq!(parse_i64("-9223372036854775809"), None);
    assert_eq!(parse_i64("9223372036854775807"), Some(i64::MAX));
    assert_eq!(parse_i64("-0"), Some(0));
}
