use base64::engine::general_purpose::STANDARD as BASE64;
use base64::Engine as _;
use exemem_client_lib::config::AppConfig;
use exemem_client_lib::config::Environment;
use exemem_client_lib::query::auth_headers;
use exemem_client_lib::query::build_chat_response;
use exemem_client_lib::query::chat_endpoint;
use exemem_client_lib::query::interpret_api_response;
use exemem_client_lib::query::mutate_endpoint;
use exemem_client_lib::query::query_endpoint;
use exemem_client_lib::query::search_endpoint;
use exemem_client_lib::storage::auth_header;
use exemem_client_lib::storage::decode_scan_items;
use exemem_client_lib::storage::interpret_exists_response;
use exemem_client_lib::storage::interpret_get_value;
use exemem_client_lib::storage::interpret_storage_response;
use exemem_client_lib::storage::ExememApiStore;
use exemem_client_lib::storage::ExememAuth;
use exemem_client_lib::storage::StorageField;

#[test]
fn test_encode_key() {
    let key = b"my_key";
    let encoded = ExememApiStore::encode_key(key);
    assert_eq!(encoded, BASE64.encode(b"my_key"));
}

#[test]
fn test_encode_value() {
    let value = b"some_value";
    let encoded = ExememApiStore::encode_value(value);
    let decoded = ExememApiStore::decode_value(&encoded).unwrap();
    assert_eq!(decoded, value);
}

#[test]
fn test_decode_value_invalid_base64() {
    let result = ExememApiStore::decode_value("not!valid!base64!!");
    assert!(result.is_err());
}

#[test]
fn test_endpoint_construction() {
    let store = ExememApiStore::new(
        "https://api.example.com".to_string(),
        "main".to_string(),
        ExememAuth::UserHash("test_user".to_string()),
    );
    assert_eq!(
        store.endpoint("get"),
        "https://api.example.com/api/storage/get"
    );
    assert_eq!(
        store.endpoint("scan-prefix"),
        "https://api.example.com/api/storage/scan-prefix"
    );
}

#[test]
fn storage_auth_headers_by_method() {
    let (k, v) = auth_header(&ExememAuth::UserHash("u1".to_string()));
    assert_eq!((k.as_str(), v.as_str()), ("X-User-Hash", "u1"));
    let (k, v) = auth_header(&ExememAuth::ApiKey("k1".to_string()));
    assert_eq!((k.as_str(), v.as_str()), ("X-API-Key", "k1"));
    let (k, v) = auth_header(&ExememAuth::BearerToken("t1".to_string()));
    assert_eq!((k.as_str(), v.as_str()), ("Authorization", "Bearer t1"));
}

#[test]
fn storage_envelope_needs_an_explicit_ok() {
    assert!(interpret_storage_response(Some(true), None).is_ok());
    let e = interpret_storage_response(Some(false), Some("denied".to_string())).unwrap_err();
    assert_eq!(e, "Storage API error: denied");
    let e = interpret_storage_response(None, None).unwrap_err();
    assert_eq!(e, "Storage API error: Unknown error");
}

#[test]
fn get_value_shapes() {
    assert_eq!(interpret_get_value(StorageField::Missing).unwrap(), None);
    assert_eq!(interpret_get_value(StorageField::Null).unwrap(), None);
    let b64 = BASE64.encode(b"payload");
    assert_eq!(
        interpret_get_value(StorageField::Text(b64)).unwrap(),
        Some(b"payload".to_vec())
    );
    assert!(interpret_get_value(StorageField::Text("!!".to_string())).is_err());
    let e = interpret_get_value(StorageField::OtherType).unwrap_err();
    assert_eq!(e, "Unexpected 'value' type in get response");
}

#[test]
fn exists_needs_its_field() {
    assert_eq!(interpret_exists_response(Some(true)).unwrap(), true);
    assert_eq!(interpret_exists_response(Some(false)).unwrap(), false);
    assert!(interpret_exists_response(None).is_err());
}

#[test]
fn scan_items_decode_pairwise() {
    let items = vec![
        (BASE64.encode(b"k1"), BASE64.encode(b"v1")),
        (BASE64.encode(b"k2"), BASE64.encode(b"v2")),
    ];
    let out = decode_scan_items(&items).unwrap();
    assert_eq!(out.len(), 2);
    assert_eq!(out[0], (b"k1".to_vec(), b"v1".to_vec()));
    assert_eq!(out[1], (b"k2".to_vec(), b"v2".to_vec()));
    let bad = vec![("@@".to_string(), BASE64.encode(b"v"))];
    assert!(decode_scan_items(&bad).is_err());
}

#[test]
fn query_headers_follow_the_config() {
    let hs = auth_headers("key", Some("hash"));
    assert_eq!(hs.len(), 2);
    assert_eq!(hs[0], ("X-API-Key".to_string(), "key".to_string()));
    assert_eq!(hs[1], ("X-User-Hash".to_string(), "hash".to_string()));
    assert_eq!(auth_headers("", None).len(), 0);
    assert_eq!(auth_headers("key", None).len(), 1);
}

#[test]
fn query_envelope_surfaces_the_server_error() {
    assert!(interpret_api_response(Some(true), None).is_ok());
    let e = interpret_api_response(Some(false), Some("bad query".to_string())).unwrap_err();
    assert_eq!(e, "bad query");
    let e = interpret_api_response(None, None).unwrap_err();
    assert_eq!(e, "Unknown server error");
}

#[test]
fn chat_response_defaults_the_blanks() {
    let c = build_chat_response(Some("an answer".to_string()), Some(true));
    assert_eq!(c.answer, "an answer");
    assert!(c.context_used);
    let c = build_chat_response(None, None);
    assert_eq!(c.answer, "");
    assert!(!c.context_used);
}

#[test]
fn query_endpoints_extend_the_base_url() {
    assert_eq!(query_endpoint("https://x"), "https://x/api/llm-query/native-index");
    assert_eq!(chat_endpoint("https://x"), "https://x/api/llm-query/chat");
    assert_eq!(search_endpoint("https://x"), "https://x/api/native-index/search");
    assert_eq!(mutate_endpoint("https://x"), "https://x/api/mutation/execute");
}

#[test]
fn api_url_follows_the_environment() {
    let mut c = AppConfig::default();
    assert!(c.api_url().starts_with("https://"));
    assert!(!c.is_configured());
    c.environment = Environment::Custom;
    c.api_base_url = "https://custom.example.com".to_string();
    c.api_key = "k".to_string();
    c.watched_folder = Some("/tmp/w".to_string());
    assert_eq!(c.api_url(), "https://custom.example.com");
    assert!(c.is_configured());
    c.api_base_url = String::new();
    assert!(!c.is_configured());
}
