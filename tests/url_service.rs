use url_shortener::service::UrlService;
use url_shortener::{CreateUrlRequest, ServiceError, UpdateUrlRequest};

fn request(url: &str, short_code: &str) -> CreateUrlRequest {
    CreateUrlRequest {
        url: url.to_string(),
        short_code: short_code.to_string(),
    }
}

#[test]
fn test_add_url() {
    let mut url_service = UrlService::new();
    let data = request("https://example.com", "example");
    let result = url_service.add(data);
    assert!(result.is_ok());
}

#[test]
fn url_service_test_retrieve_url() {
    let mut url_service = UrlService::new();
    url_service.add(request("https://example.com", "example")).unwrap();
    let result = url_service.retrieve("example".to_string());
    assert!(result.is_ok());
}

#[test]
fn url_service_test_update_url() {
    let mut url_service = UrlService::new();
    url_service.add(request("https://example.com", "example")).unwrap();
    let data = UpdateUrlRequest {
        url: "https://example.com".to_string(),
    };
    let result = url_service.update("example".to_string(), data);
    assert!(result.is_ok());
}

#[test]
fn url_service_test_delete_url() {
    let mut url_service = UrlService::new();
    url_service.add(request("https://example.com", "example")).unwrap();
    let result = url_service.delete("example".to_string());
    assert!(result.is_ok());
}

#[test]
fn test_statistics_url() {
    let mut url_service = UrlService::new();
    url_service.add(request("https://example.com", "example")).unwrap();
    let result = url_service.statistics("example".to_string());
    assert!(result.is_ok());
}

#[test]
fn full_lifecycle_of_one_code() {
    let mut s = UrlService::new();
    assert_eq!(s.add(request("https://example.com", "example")), Ok(()));
    let view = s.retrieve("example".to_string()).unwrap();
    assert_eq!(view.url, "https://example.com");
    assert_eq!(view.short_code, "example");
    assert!(view.created_at.is_some());
    assert!(view.updated_at.is_none());
    assert_eq!(s.statistics("example".to_string()).unwrap().access_count, 1);
    let new_url = UpdateUrlRequest {
        url: "https://new.example.com".to_string(),
    };
    assert_eq!(s.update("example".to_string(), new_url), Ok(()));
    assert_eq!(
        s.statistics("example".to_string()).unwrap().url,
        "https://new.example.com"
    );
    assert_eq!(s.delete("example".to_string()), Ok(()));
    assert_eq!(
        s.statistics("example".to_string()).err(),
        Some(ServiceError::NotFound)
    );
}

#[test]
fn second_create_of_a_code_is_a_duplicate() {
    let mut s = UrlService::new();
    assert_eq!(s.add(request("https://one.example", "c")), Ok(()));
    assert_eq!(
        s.add(request("https://two.example", "c")),
        Err(ServiceError::DuplicateCode)
    );
    let rec = s.statistics("c".to_string()).unwrap();
    assert_eq!(rec.url, "https://one.example");
    assert_eq!(rec.access_count, 0);
    assert_eq!(s.list().len(), 1);
}

#[test]
fn retrievals_count_one_each() {
    let mut s = UrlService::new();
    s.add(request("https://example.com", "c")).unwrap();
    for n in 1..=25u64 {
        s.retrieve("c".to_string()).unwrap();
        assert_eq!(s.statistics("c".to_string()).unwrap().access_count, n);
    }
}

#[test]
fn statistics_does_not_count() {
    let mut s = UrlService::new();
    s.add(request("https://example.com", "c")).unwrap();
    for _ in 0..3 {
        assert_eq!(s.statistics("c".to_string()).unwrap().access_count, 0);
    }
}

#[test]
fn missing_code_is_not_found_everywhere() {
    let mut s = UrlService::new();
    s.add(request("https://example.com", "present")).unwrap();
    assert_eq!(
        s.retrieve("absent".to_string()).err(),
        Some(ServiceError::NotFound)
    );
    let data = UpdateUrlRequest {
        url: "https://x.example".to_string(),
    };
    assert_eq!(
        s.update("absent".to_string(), data),
        Err(ServiceError::NotFound)
    );
    assert_eq!(
        s.delete("absent".to_string()),
        Err(ServiceError::NotFound)
    );
    assert_eq!(
        s.statistics("absent".to_string()).err(),
        Some(ServiceError::NotFound)
    );
    let all = s.list();
    assert_eq!(all.len(), 1);
    assert_eq!(all[0].url, "https://example.com");
    assert_eq!(all[0].access_count, 0);
    assert!(all[0].updated_at.is_none());
}

#[test]
fn update_keeps_code_and_creation_time() {
    let mut s = UrlService::new();
    s.add(request("https://example.com", "c")).unwrap();
    let before = s.statistics("c".to_string()).unwrap();
    let data = UpdateUrlRequest {
        url: "https://new.example".to_string(),
    };
    s.update("c".to_string(), data).unwrap();
    let after = s.statistics("c".to_string()).unwrap();
    assert_eq!(after.short_code, "c");
    assert_eq!(after.id, before.id);
    assert_eq!(after.created_at, before.created_at);
    assert_eq!(after.url, "https://new.example");
    let stamp = after.updated_at.unwrap();
    assert!(stamp.nanos >= before.created_at.unwrap().nanos);
    let data = UpdateUrlRequest {
        url: "https://newer.example".to_string(),
    };
    s.update("c".to_string(), data).unwrap();
    let again = s.statistics("c".to_string()).unwrap();
    assert!(again.updated_at.unwrap().nanos >= stamp.nanos);
}

#[test]
fn recreate_after_delete_starts_fresh() {
    let mut s = UrlService::new();
    s.add(request("https://example.com", "c")).unwrap();
    s.retrieve("c".to_string()).unwrap();
    s.retrieve("c".to_string()).unwrap();
    let old_id = s.statistics("c".to_string()).unwrap().id;
    s.delete("c".to_string()).unwrap();
    assert_eq!(
        s.statistics("c".to_string()).err(),
        Some(ServiceError::NotFound)
    );
    assert_eq!(s.add(request("https://again.example", "c")), Ok(()));
    let rec = s.statistics("c".to_string()).unwrap();
    assert_eq!(rec.access_count, 0);
    assert_eq!(rec.url, "https://again.example");
    assert_ne!(rec.id, old_id);
}

#[test]
fn empty_service_lists_nothing() {
    let s = UrlService::new();
    assert!(s.list().is_empty());
}

#[test]
fn listing_keeps_insertion_order_and_ids() {
    let mut s = UrlService::new();
    s.add(request("https://a.example", "a")).unwrap();
    s.add(request("https://b.example", "b")).unwrap();
    s.add(request("https://c.example", "c")).unwrap();
    s.delete("b".to_string()).unwrap();
    let all = s.list();
    let codes: Vec<&str> = all.iter().map(|u| u.short_code.as_str()).collect();
    assert_eq!(codes, vec!["a", "c"]);
    assert_eq!(all[0].id, 1);
    assert_eq!(all[1].id, 3);
    let again = s.list();
    assert_eq!(again.len(), 2);
    assert_eq!(again[1].short_code, "c");
}

#[test]
fn interleaved_retrievals_lose_no_count() {
    let mut s = UrlService::new();
    s.add(request("https://a.example", "a")).unwrap();
    s.add(request("https://b.example", "b")).unwrap();
    let order = ["a", "b", "a", "a", "missing", "b", "a"];
    for code in order {
        let _ = s.retrieve(code.to_string());
    }
    assert_eq!(s.statistics("a".to_string()).unwrap().access_count, 4);
    assert_eq!(s.statistics("b".to_string()).unwrap().access_count, 2);
    assert_eq!(s.statistics("b".to_string()).unwrap().url, "https://b.example");
}
