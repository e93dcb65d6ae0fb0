use request_catcher::{
    BucketStore, CreateBucketPayload, NameError, PaginationParams, StoreError,
};

fn payload(pw: &str) -> CreateBucketPayload {
    CreateBucketPayload { password: pw.to_string() }
}

fn no_page() -> PaginationParams {
    PaginationParams { page: None, page_size: None }
}

fn capture(store: &mut BucketStore, path: &str) -> Result<(), StoreError> {
    store.capture_request(path, "GET", "", Vec::new(), String::new(), 0)
}

#[test]
fn test_create_bucket() {
    let mut store = BucketStore::new();
    assert!(store.create_bucket("test-bucket", payload("password123")).is_ok());
}

#[test]
fn test_create_bucket_with_empty_password() {
    let mut store = BucketStore::new();
    assert_eq!(
        store.create_bucket("test-bucket", payload("")),
        Err(StoreError::EmptyPassword)
    );
}

#[test]
fn test_create_duplicate_bucket() {
    let mut store = BucketStore::new();
    assert!(store.create_bucket("test-bucket", payload("password123")).is_ok());
    assert_eq!(
        store.create_bucket("test-bucket", payload("other-password")),
        Err(StoreError::AlreadyExists)
    );
}

#[test]
fn test_create_bucket_with_reserved_name_api() {
    let mut store = BucketStore::new();
    assert_eq!(
        store.create_bucket("api", payload("password123")),
        Err(StoreError::InvalidName(NameError::Reserved))
    );
}

#[test]
fn test_create_bucket_with_reserved_name_ui() {
    let mut store = BucketStore::new();
    assert_eq!(
        store.create_bucket("ui", payload("password123")),
        Err(StoreError::InvalidName(NameError::Reserved))
    );
}

#[test]
fn test_reserved_routes_still_work() {
    // The reserved names never hold buckets, so listing names works and
    // serves none of them.
    let mut store = BucketStore::new();
    assert!(store.create_bucket("test-bucket", payload("pw")).is_ok());
    let names = store.list_buckets();
    assert!(!names.iter().any(|n| n == "api" || n == "ui"));
}

#[test]
fn test_list_buckets() {
    let mut store = BucketStore::new();
    for name in ["bucket1", "bucket2", "bucket3"] {
        assert!(store.create_bucket(name, payload("pw")).is_ok());
    }
    let names = store.list_buckets();
    assert_eq!(names.len(), 3);
    assert!(names.iter().any(|n| n == "bucket1"));
    assert!(names.iter().any(|n| n == "bucket2"));
    assert!(names.iter().any(|n| n == "bucket3"));
}

#[test]
fn test_capture_get_request() {
    let mut store = BucketStore::new();
    assert!(store.create_bucket("test-bucket", payload("pw")).is_ok());
    let headers = vec![
        ("user-agent".to_string(), "Test-Agent".to_string()),
        ("authorization".to_string(), "Bearer token123".to_string()),
    ];
    assert!(store
        .capture_request(
            "/test-bucket/api/users",
            "GET",
            "id=123&name=test",
            headers,
            String::new(),
            1,
        )
        .is_ok());
    let page = store.get_bucket_requests("test-bucket", Some("pw"), no_page()).unwrap();
    assert_eq!(page.requests.len(), 1);
    let rec = &page.requests[0];
    assert_eq!(rec.method, "GET");
    assert_eq!(rec.path, "/test-bucket/api/users");
    assert!(rec.query_params.iter().any(|(k, v)| k == "id" && v == "123"));
    assert!(rec.query_params.iter().any(|(k, v)| k == "name" && v == "test"));
    assert!(rec.headers.iter().any(|(k, v)| k == "user-agent" && v == "Test-Agent"));
    assert!(rec.headers.iter().any(|(k, v)| k == "authorization" && v == "Bearer token123"));
}

#[test]
fn test_capture_post_request_with_json() {
    let mut store = BucketStore::new();
    assert!(store.create_bucket("test-bucket", payload("pw")).is_ok());
    let body = "{\"username\":\"john_doe\",\"email\":\"john@example.com\",\"age\":30,\
\"active\":true,\"tags\":[\"developer\",\"rust\"]}";
    let headers = vec![("content-type".to_string(), "application/json".to_string())];
    assert!(store
        .capture_request("/test-bucket/api/users", "POST", "", headers, body.to_string(), 2)
        .is_ok());
    let page = store.get_bucket_requests("test-bucket", Some("pw"), no_page()).unwrap();
    let rec = &page.requests[0];
    assert_eq!(rec.method, "POST");
    assert_eq!(rec.path, "/test-bucket/api/users");
    assert_eq!(rec.body, body);
    assert!(rec.body.contains("john_doe"));
    assert!(rec.body.contains("john@example.com"));
}

#[test]
fn test_capture_put_request() {
    let mut store = BucketStore::new();
    assert!(store.create_bucket("test-bucket", payload("pw")).is_ok());
    let body = "{\"status\":\"updated\"}";
    assert!(store
        .capture_request("/test-bucket/api/users/123", "PUT", "", Vec::new(), body.to_string(), 3)
        .is_ok());
    let page = store.get_bucket_requests("test-bucket", Some("pw"), no_page()).unwrap();
    assert_eq!(page.requests[0].method, "PUT");
}

#[test]
fn test_capture_patch_request() {
    let mut store = BucketStore::new();
    assert!(store.create_bucket("test-bucket", payload("pw")).is_ok());
    let body = "{\"email\":\"newemail@example.com\"}";
    assert!(store
        .capture_request(
            "/test-bucket/api/users/123",
            "PATCH",
            "",
            Vec::new(),
            body.to_string(),
            4,
        )
        .is_ok());
    let page = store.get_bucket_requests("test-bucket", Some("pw"), no_page()).unwrap();
    assert_eq!(page.requests[0].method, "PATCH");
}

#[test]
fn test_capture_delete_request() {
    let mut store = BucketStore::new();
    assert!(store.create_bucket("test-bucket", payload("pw")).is_ok());
    assert!(store
        .capture_request(
            "/test-bucket/api/users/123",
            "DELETE",
            "",
            Vec::new(),
            String::new(),
            5,
        )
        .is_ok());
    let page = store.get_bucket_requests("test-bucket", Some("pw"), no_page()).unwrap();
    assert_eq!(page.requests[0].method, "DELETE");
}

#[test]
fn test_capture_head_request() {
    let mut store = BucketStore::new();
    assert!(store.create_bucket("test-bucket", payload("pw")).is_ok());
    assert!(store
        .capture_request("/test-bucket/api/users", "HEAD", "", Vec::new(), String::new(), 6)
        .is_ok());
    let page = store.get_bucket_requests("test-bucket", Some("pw"), no_page()).unwrap();
    assert_eq!(page.requests[0].method, "HEAD");
}

#[test]
fn test_capture_options_request() {
    let mut store = BucketStore::new();
    assert!(store.create_bucket("test-bucket", payload("pw")).is_ok());
    assert!(store
        .capture_request("/test-bucket/api/users", "OPTIONS", "", Vec::new(), String::new(), 7)
        .is_ok());
    let page = store.get_bucket_requests("test-bucket", Some("pw"), no_page()).unwrap();
    assert_eq!(page.requests[0].method, "OPTIONS");
}

#[test]
fn test_capture_request_with_form_data() {
    let mut store = BucketStore::new();
    assert!(store.create_bucket("test-bucket", payload("pw")).is_ok());
    let body = "username=john&password=secret123&remember=on";
    let headers = vec![(
        "content-type".to_string(),
        "application/x-www-form-urlencoded".to_string(),
    )];
    assert!(store
        .capture_request("/test-bucket/login", "POST", "", headers, body.to_string(), 8)
        .is_ok());
    let page = store.get_bucket_requests("test-bucket", Some("pw"), no_page()).unwrap();
    let rec = &page.requests[0];
    assert_eq!(rec.method, "POST");
    assert!(rec.body.starts_with("username=john"));
}

#[test]
fn test_capture_request_with_custom_headers() {
    let mut store = BucketStore::new();
    assert!(store.create_bucket("test-bucket", payload("pw")).is_ok());
    let headers = vec![
        ("x-custom-header".to_string(), "custom-value".to_string()),
        ("x-api-key".to_string(), "secret-key-123".to_string()),
        ("user-agent".to_string(), "Test-Client/1.0".to_string()),
    ];
    assert!(store
        .capture_request("/test-bucket/api/test", "GET", "", headers, String::new(), 9)
        .is_ok());
    let page = store.get_bucket_requests("test-bucket", Some("pw"), no_page()).unwrap();
    let rec = &page.requests[0];
    assert!(rec.headers.iter().any(|(k, v)| k == "x-custom-header" && v == "custom-value"));
    assert!(rec.headers.iter().any(|(k, v)| k == "x-api-key" && v == "secret-key-123"));
}

#[test]
fn test_capture_multiple_requests() {
    let mut store = BucketStore::new();
    assert!(store.create_bucket("test-bucket", payload("pw")).is_ok());
    for i in 0..5 {
        let path = format!("/test-bucket/api/resource/{}", i);
        assert!(capture(&mut store, &path).is_ok());
    }
    let page = store.get_bucket_requests("test-bucket", Some("pw"), no_page()).unwrap();
    assert_eq!(page.total, 5);
    assert_eq!(page.requests.len(), 5);
}

#[test]
fn test_clear_bucket_requests() {
    let mut store = BucketStore::new();
    assert!(store.create_bucket("test-bucket", payload("pw")).is_ok());
    for i in 0..3 {
        let path = format!("/test-bucket/api/resource/{}", i);
        assert!(capture(&mut store, &path).is_ok());
    }
    assert!(store.clear_bucket_requests("test-bucket", Some("pw")).is_ok());
    let page = store.get_bucket_requests("test-bucket", Some("pw"), no_page()).unwrap();
    assert_eq!(page.total, 0);
    assert!(page.requests.is_empty());
}

#[test]
fn test_clear_bucket_with_wrong_password() {
    let mut store = BucketStore::new();
    assert!(store.create_bucket("test-bucket", payload("pw")).is_ok());
    assert_eq!(
        store.clear_bucket_requests("test-bucket", Some("wrong_password")),
        Err(StoreError::InvalidPassword)
    );
}

#[test]
fn test_delete_bucket() {
    let mut store = BucketStore::new();
    assert!(store.create_bucket("test-bucket", payload("pw")).is_ok());
    assert!(store.delete_bucket("test-bucket", Some("pw")).is_ok());
    assert_eq!(
        store.get_bucket_requests("test-bucket", Some("pw"), no_page()).err(),
        Some(StoreError::BucketNotFound)
    );
}

#[test]
fn test_delete_bucket_with_wrong_password() {
    let mut store = BucketStore::new();
    assert!(store.create_bucket("test-bucket", payload("pw")).is_ok());
    assert_eq!(
        store.delete_bucket("test-bucket", Some("wrong_password")),
        Err(StoreError::InvalidPassword)
    );
}

#[test]
fn test_get_requests_without_password() {
    let mut store = BucketStore::new();
    assert!(store.create_bucket("test-bucket", payload("pw")).is_ok());
    assert_eq!(
        store.get_bucket_requests("test-bucket", None, no_page()).err(),
        Some(StoreError::PasswordRequired)
    );
}

#[test]
fn test_capture_request_to_nonexistent_bucket() {
    let mut store = BucketStore::new();
    assert_eq!(
        capture(&mut store, "/nonexistent-bucket/api/test"),
        Err(StoreError::BucketNotFound)
    );
}

#[test]
fn test_capture_large_json_payload() {
    let mut store = BucketStore::new();
    assert!(store.create_bucket("test-bucket", payload("pw")).is_ok());
    let mut body = String::from("{\"items\":[");
    for i in 0..1000 {
        if i > 0 {
            body.push(',');
        }
        body.push_str(&format!(
            "{{\"name\":\"Item {}\",\"description\":\"This is a test item with some \
description text\",\"value\":{}}}",
            i,
            i * 100
        ));
    }
    body.push_str("],\"metadata\":{\"count\":1000,\"timestamp\":\"2024-01-01T00:00:00Z\"}}");
    assert!(body.len() > 10000);
    let headers = vec![("content-type".to_string(), "application/json".to_string())];
    assert!(store
        .capture_request(
            "/test-bucket/api/bulk-upload",
            "POST",
            "",
            headers,
            body.clone(),
            10,
        )
        .is_ok());
    let page = store.get_bucket_requests("test-bucket", Some("pw"), no_page()).unwrap();
    assert_eq!(page.requests[0].body, body);
}

#[test]
fn test_capture_request_with_empty_body() {
    let mut store = BucketStore::new();
    assert!(store.create_bucket("test-bucket", payload("pw")).is_ok());
    assert!(store
        .capture_request("/test-bucket/api/test", "POST", "", Vec::new(), String::new(), 11)
        .is_ok());
    let page = store.get_bucket_requests("test-bucket", Some("pw"), no_page()).unwrap();
    assert_eq!(page.requests[0].body, "");
}

#[test]
fn test_capture_request_with_special_characters_in_path() {
    let mut store = BucketStore::new();
    assert!(store.create_bucket("test-bucket", payload("pw")).is_ok());
    assert!(capture(&mut store, "/test-bucket/api/users/%20test%20/data").is_ok());
    let page = store.get_bucket_requests("test-bucket", Some("pw"), no_page()).unwrap();
    assert_eq!(page.requests[0].path, "/test-bucket/api/users/%20test%20/data");
    assert!(page.requests[0].path.contains("test-bucket"));
}

#[test]
fn test_concurrent_requests_to_same_bucket() {
    // The store serializes captures behind its caller's lock; any
    // serialization of 10 captures must record all 10.
    let mut store = BucketStore::new();
    assert!(store.create_bucket("test-bucket", payload("pw")).is_ok());
    for i in 0..10 {
        let path = format!("/test-bucket/api/concurrent/{}", i);
        assert!(store
            .capture_request(&path, "POST", &format!("index={}", i), Vec::new(), String::new(), i)
            .is_ok());
    }
    let page = store.get_bucket_requests("test-bucket", Some("pw"), no_page()).unwrap();
    assert_eq!(page.total, 10);
    for i in 0..10 {
        let path = format!("/test-bucket/api/concurrent/{}", i);
        assert!(page.requests.iter().any(|r| r.path == path));
    }
}

#[test]
fn test_request_timestamp_is_set() {
    let mut store = BucketStore::new();
    assert!(store.create_bucket("test-bucket", payload("pw")).is_ok());
    assert!(store
        .capture_request(
            "/test-bucket/api/test",
            "GET",
            "",
            Vec::new(),
            String::new(),
            1700000000000,
        )
        .is_ok());
    let page = store.get_bucket_requests("test-bucket", Some("pw"), no_page()).unwrap();
    assert_eq!(page.requests[0].timestamp, 1700000000000);
    assert!(page.requests[0].timestamp > 0);
}
