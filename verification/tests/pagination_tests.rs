use request_catcher::{
    paginate, BucketStore, CreateBucketPayload, PaginationParams, RequestData, StoreError,
};

fn payload(pw: &str) -> CreateBucketPayload {
    CreateBucketPayload { password: pw.to_string() }
}

fn params(page: usize, page_size: usize) -> PaginationParams {
    PaginationParams { page: Some(page), page_size: Some(page_size) }
}

fn record(path: &str) -> RequestData {
    RequestData {
        path: path.to_string(),
        method: "GET".to_string(),
        query_params: Vec::new(),
        headers: Vec::new(),
        body: String::new(),
        timestamp: 0,
    }
}

fn filled_store(n: usize) -> BucketStore {
    let mut store = BucketStore::new();
    assert!(store.create_bucket("test-bucket", payload("pw")).is_ok());
    for i in 1..=n {
        let path = format!("/test-bucket/api/resource/{}", i);
        assert!(store
            .capture_request(&path, "GET", "", Vec::new(), String::new(), i as i64)
            .is_ok());
    }
    store
}

#[test]
fn test_pagination() {
    let store = filled_store(25);

    let all = store
        .get_bucket_requests("test-bucket", Some("pw"), PaginationParams {
            page: None,
            page_size: None,
        })
        .unwrap();
    assert_eq!(all.total, 25);
    assert_eq!(all.page, 1);
    assert_eq!(all.page_size, 50);
    assert_eq!(all.total_pages, 1);
    assert_eq!(all.requests.len(), 25);

    let p1 = store.get_bucket_requests("test-bucket", Some("pw"), params(1, 10)).unwrap();
    assert_eq!(p1.requests.len(), 10);
    assert_eq!(p1.total, 25);
    assert_eq!(p1.total_pages, 3);
    assert_eq!(p1.requests[0].path, "/test-bucket/api/resource/1");

    let p2 = store.get_bucket_requests("test-bucket", Some("pw"), params(2, 10)).unwrap();
    assert_eq!(p2.requests.len(), 10);
    assert_eq!(p2.requests[0].path, "/test-bucket/api/resource/11");

    let p3 = store.get_bucket_requests("test-bucket", Some("pw"), params(3, 10)).unwrap();
    assert_eq!(p3.requests.len(), 5);
    assert_eq!(p3.requests[4].path, "/test-bucket/api/resource/25");

    let p4 = store.get_bucket_requests("test-bucket", Some("pw"), params(4, 10)).unwrap();
    assert_eq!(p4.requests.len(), 0);
    assert_eq!(p4.total, 25);
    assert_eq!(p4.total_pages, 3);
}

#[test]
fn test_max_requests_per_bucket_limit() {
    let store = filled_store(1005);

    let p1 = store.get_bucket_requests("test-bucket", Some("pw"), params(1, 500)).unwrap();
    assert_eq!(p1.total, 1000);
    assert_eq!(p1.total_pages, 2);
    assert_eq!(p1.requests.len(), 500);
    assert_eq!(p1.requests[0].path, "/test-bucket/api/resource/6");

    let p2 = store.get_bucket_requests("test-bucket", Some("pw"), params(2, 500)).unwrap();
    assert_eq!(p2.requests.len(), 500);
    assert_eq!(p2.requests[499].path, "/test-bucket/api/resource/1005");
}

#[test]
fn test_paginate_empty_has_zero_total_pages() {
    let items: Vec<RequestData> = Vec::new();
    let page = paginate(&items, None, None);
    assert_eq!(page.total, 0);
    assert_eq!(page.total_pages, 0);
    assert_eq!(page.requests.len(), 0);
    assert_eq!(page.page, 1);
    assert_eq!(page.page_size, 50);
}

#[test]
fn test_paginate_clamps_page_and_size() {
    let items: Vec<RequestData> = (0..5).map(|i| record(&format!("/b/{}", i))).collect();
    let zero_page = paginate(&items, Some(0), Some(0));
    assert_eq!(zero_page.page, 1);
    assert_eq!(zero_page.page_size, 1);
    assert_eq!(zero_page.requests.len(), 1);
    assert_eq!(zero_page.total_pages, 5);

    let big_size = paginate(&items, Some(1), Some(1000));
    assert_eq!(big_size.page_size, 500);
    assert_eq!(big_size.requests.len(), 5);
    assert_eq!(big_size.total_pages, 1);
}

#[test]
fn test_paginate_exact_boundaries() {
    let items: Vec<RequestData> = (0..20).map(|i| record(&format!("/b/{}", i))).collect();
    let page = paginate(&items, Some(2), Some(10));
    assert_eq!(page.requests.len(), 10);
    assert_eq!(page.requests[0].path, "/b/10");
    assert_eq!(page.requests[9].path, "/b/19");
    assert_eq!(page.total_pages, 2);

    let past = paginate(&items, Some(3), Some(10));
    assert_eq!(past.requests.len(), 0);
    assert_eq!(past.total, 20);
}

#[test]
fn test_default_page_size_slices_at_fifty() {
    let store = filled_store(60);
    let page = store
        .get_bucket_requests("test-bucket", Some("pw"), PaginationParams {
            page: None,
            page_size: None,
        })
        .unwrap();
    assert_eq!(page.total, 60);
    assert_eq!(page.page_size, 50);
    assert_eq!(page.requests.len(), 50);
    assert_eq!(page.total_pages, 2);
    assert_eq!(page.requests[49].path, "/test-bucket/api/resource/50");
}

#[test]
fn test_eviction_keeps_order_and_cap() {
    let store = filled_store(1001);
    let page = store.get_bucket_requests("test-bucket", Some("pw"), params(1, 500)).unwrap();
    assert_eq!(page.total, 1000);
    assert_eq!(page.requests[0].path, "/test-bucket/api/resource/2");
}

#[test]
fn test_clear_then_list_total_zero_and_clear_again() {
    let mut store = filled_store(7);
    assert!(store.clear_bucket_requests("test-bucket", Some("pw")).is_ok());
    let page = store
        .get_bucket_requests("test-bucket", Some("pw"), PaginationParams {
            page: None,
            page_size: None,
        })
        .unwrap();
    assert_eq!(page.total, 0);
    // Clearing an already empty bucket succeeds and leaves it empty.
    assert!(store.clear_bucket_requests("test-bucket", Some("pw")).is_ok());
    let again = store
        .get_bucket_requests("test-bucket", Some("pw"), PaginationParams {
            page: None,
            page_size: None,
        })
        .unwrap();
    assert_eq!(again.total, 0);
}

#[test]
fn test_delete_with_wrong_password_preserves_requests() {
    let mut store = filled_store(4);
    assert_eq!(
        store.delete_bucket("test-bucket", Some("wrong")),
        Err(StoreError::InvalidPassword)
    );
    let page = store
        .get_bucket_requests("test-bucket", Some("pw"), PaginationParams {
            page: None,
            page_size: None,
        })
        .unwrap();
    assert_eq!(page.total, 4);
    for i in 1..=4 {
        assert_eq!(page.requests[i - 1].path, format!("/test-bucket/api/resource/{}", i));
    }
}

#[test]
fn test_password_gating_regardless_of_captures() {
    let mut store = filled_store(3);
    assert_eq!(
        store
            .get_bucket_requests("test-bucket", Some("not-the-password"), PaginationParams {
                page: None,
                page_size: None,
            })
            .err(),
        Some(StoreError::InvalidPassword)
    );
    assert!(store
        .capture_request("/test-bucket/more", "GET", "", Vec::new(), String::new(), 99)
        .is_ok());
    assert_eq!(
        store
            .get_bucket_requests("test-bucket", Some("not-the-password"), PaginationParams {
                page: None,
                page_size: None,
            })
            .err(),
        Some(StoreError::InvalidPassword)
    );
    assert!(store
        .get_bucket_requests("test-bucket", Some("pw"), PaginationParams {
            page: None,
            page_size: None,
        })
        .is_ok());
}
