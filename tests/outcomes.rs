use url_shortener::service::{response_of, retrieval_outcome, rows_outcome, service_error, UrlService};
use url_shortener::{CreateUrlRequest, ServiceError, StoreFault, Timestamp, UpdateUrlRequest, Url};

fn record(created: i64, updated: Option<i64>) -> Url {
    Url {
        id: 7,
        url: "https://example.com".to_string(),
        short_code: "example".to_string(),
        created_at: Some(Timestamp::from_nanos(created)),
        updated_at: updated.map(Timestamp::from_nanos),
        access_count: 3,
    }
}

#[test]
fn faults_map_to_error_kinds() {
    assert_eq!(service_error(StoreFault::UniqueViolation), ServiceError::DuplicateCode);
    assert_eq!(service_error(StoreFault::NoSuchRow), ServiceError::NotFound);
    assert_eq!(service_error(StoreFault::Other), ServiceError::StoreError);
}

#[test]
fn zero_rows_changed_is_not_found() {
    assert_eq!(rows_outcome(0), Err(ServiceError::NotFound));
    assert_eq!(rows_outcome(1), Ok(()));
    assert_eq!(rows_outcome(2), Ok(()));
}

#[test]
fn failed_fetch_is_an_error() {
    assert_eq!(
        retrieval_outcome(Err(StoreFault::NoSuchRow)).err(),
        Some(ServiceError::NotFound)
    );
    assert_eq!(
        retrieval_outcome(Err(StoreFault::Other)).err(),
        Some(ServiceError::StoreError)
    );
}

#[test]
fn epoch_renders_as_utc_text() {
    assert_eq!(Timestamp::from_nanos(0).to_text(), "1970-01-01 00:00:00 UTC");
    assert_eq!(
        Timestamp::from_nanos(1_662_921_288_000_000_000).to_text(),
        "2022-09-11 18:34:48 UTC"
    );
}

#[test]
fn response_shows_times_as_text_and_hides_count() {
    let r = response_of(&record(0, Some(1_662_921_288_000_000_000)));
    assert_eq!(r.url, "https://example.com");
    assert_eq!(r.short_code, "example");
    assert_eq!(r.created_at.as_deref(), Some("1970-01-01 00:00:00 UTC"));
    assert_eq!(r.updated_at.as_deref(), Some("2022-09-11 18:34:48 UTC"));
    let r = retrieval_outcome(Ok(record(0, None))).unwrap();
    assert_eq!(r.updated_at, None);
}

#[test]
fn timed_operations_use_the_given_time() {
    let mut s = UrlService::new();
    let data = CreateUrlRequest {
        url: "https://example.com".to_string(),
        short_code: "t".to_string(),
    };
    s.add_at(data, Timestamp::from_nanos(5)).unwrap();
    let rec = s.statistics("t".to_string()).unwrap();
    assert_eq!(rec.created_at, Some(Timestamp::from_nanos(5)));
    assert_eq!(rec.updated_at, None);
    let data = UpdateUrlRequest {
        url: "https://other.example".to_string(),
    };
    s.update_at("t".to_string(), data, Timestamp::from_nanos(9)).unwrap();
    let rec = s.statistics("t".to_string()).unwrap();
    assert_eq!(rec.updated_at, Some(Timestamp::from_nanos(9)));
    assert_eq!(rec.created_at, Some(Timestamp::from_nanos(5)));
    let view = s.retrieve("t".to_string()).unwrap();
    assert_eq!(view.created_at.as_deref(), Some("1970-01-01 00:00:00.000000005 UTC"));
}
