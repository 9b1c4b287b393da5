use squrl::config::{AppConfig, SecretCache};
use squrl::models::ApiGatewayProxyResponse;

#[test]
fn test_app_config_from_json() {
    let config_json: serde_json::Value = serde_json::from_str(
        "{\
            \"dynamodb_table_name\": \"json-table\",\
            \"short_url_base\": \"https://json.co\",\
            \"rust_log_level\": \"trace\",\
            \"api_keys\": {\
                \"service1\": \"key-123\",\
                \"service2\": \"key-456\"\
            }\
        }",
    )
    .unwrap();

    let config = AppConfig::from_json_config(&config_json);

    assert_eq!(config.dynamodb_table_name, "json-table");
    assert_eq!(config.short_url_base, "https://json.co");
    assert_eq!(config.rust_log_level, "trace");
    assert_eq!(config.get_api_key("service1"), Some("key-123"));
    assert_eq!(config.get_api_key("service2"), Some("key-456"));
    assert!(config.has_api_keys());
}

#[test]
fn test_app_config_json_defaults() {
    let config_json: serde_json::Value = serde_json::from_str("{}").unwrap();
    let config = AppConfig::from_json_config(&config_json);

    assert_eq!(config.dynamodb_table_name, "squrl-urls");
    assert_eq!(config.short_url_base, "https://sqrl.co");
    assert_eq!(config.rust_log_level, "info");
    assert!(!config.has_api_keys());
}

#[test]
fn test_app_config_ignores_non_string_keys() {
    let config_json: serde_json::Value =
        serde_json::from_str("{\"api_keys\": {\"good\": \"k\", \"bad\": 7}}").unwrap();
    let config = AppConfig::from_json_config(&config_json);
    assert_eq!(config.get_api_key("good"), Some("k"));
    assert_eq!(config.get_api_key("bad"), None);
}

#[test]
fn test_app_config_from_fields() {
    let config = AppConfig::from_fields(Some("mine".to_string()), None, None, Vec::new());
    assert_eq!(config.dynamodb_table_name, "mine");
    assert_eq!(config.short_url_base, "https://sqrl.co");
    assert_eq!(config.get_api_key("anything"), None);
}

#[test]
fn test_secret_cache_fresh_and_lapsed() {
    let mut cache = SecretCache::new();
    assert_eq!(cache.get_cached("db-password", 1000), None);

    cache.cache_secret("db-password".to_string(), "first-value".to_string(), 1000);
    // Fresh for the default five minutes.
    assert_eq!(cache.get_cached("db-password", 1000).as_deref(), Some("first-value"));
    assert_eq!(cache.get_cached("db-password", 1299).as_deref(), Some("first-value"));
    // At and past the expiry instant the entry reads as nothing.
    assert_eq!(cache.get_cached("db-password", 1300), None);

    // Refreshing replaces the entry in place.
    cache.cache_secret("db-password".to_string(), "second-value".to_string(), 2000);
    assert_eq!(cache.get_cached("db-password", 2299).as_deref(), Some("second-value"));
}

#[test]
fn test_secret_cache_custom_ttl() {
    let mut cache = SecretCache::with_ttl(10);
    cache.cache_secret("token".to_string(), "tok-value".to_string(), 0);
    assert!(cache.get_cached("token", 9).is_some());
    assert!(cache.get_cached("token", 10).is_none());
    assert!(cache.get_cached("other", 0).is_none());
}

#[test]
fn test_api_gateway_response_format() {
    let resp = ApiGatewayProxyResponse::new(200, "{\"ok\":true}".to_string());
    assert_eq!(resp.status_code, 200);
    assert_eq!(resp.body, "{\"ok\":true}");
    assert!(!resp.is_base64_encoded);
    let headers = resp.headers.unwrap();
    assert_eq!(headers.len(), 4);
    assert_eq!(headers[0], ("Content-Type".to_string(), "application/json".to_string()));
    assert_eq!(headers[1].1, "*");
}

#[test]
fn test_api_gateway_redirect_response() {
    let resp = ApiGatewayProxyResponse::redirect("https://example.com".to_string());
    assert_eq!(resp.status_code, 301);
    assert_eq!(resp.body, "");
    let headers = resp.headers.unwrap();
    assert_eq!(headers[0], ("Location".to_string(), "https://example.com".to_string()));
    assert_eq!(headers[1].0, "Access-Control-Allow-Origin");
}
