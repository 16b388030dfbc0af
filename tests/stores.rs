use lakestream::classify::classify_entries;
use lakestream::config::configure_bucket_url;
use lakestream::record::str_contains;
use lakestream::text::{starts_with, trim_start_matches};
use lakestream::{
    backend_for_uri, create_s3_client, list_buckets_outcome, process_file_object,
    process_response_body, AppConfig, BackendKind, EnvironmentConfig, FileObjectFilter, ListError,
    LocalFsBucket, ObjectFetch, ObjectRecord, ObjectStore, ObjectStoreTable, ObjectStoreTrait,
    Page, RequestStep, S3Bucket, TransportOutcome,
};

fn rec(name: &str, size: u64, modified: Option<u64>) -> ObjectRecord {
    ObjectRecord::new(name.to_string(), size, modified)
}

fn no_filter() -> FileObjectFilter {
    FileObjectFilter {
        name: None,
        min_size: None,
        max_size: None,
        min_modified: None,
        max_modified: None,
    }
}

fn full_config() -> EnvironmentConfig {
    let mut c = EnvironmentConfig::new();
    c.set("AWS_REGION".to_string(), "eu-west-1".to_string());
    c.set("AWS_ACCESS_KEY_ID".to_string(), "AKID".to_string());
    c.set("AWS_SECRET_ACCESS_KEY".to_string(), "SECRET-REDACTED".to_string());
    c
}

#[test]
fn directory_is_named_by_trailing_separator() {
    assert!(rec("a/b/", 0, None).is_directory());
    assert!(!rec("a/b", 0, None).is_directory());
    assert!(!rec("", 0, None).is_directory());
}

#[test]
fn substring_search() {
    assert!(str_contains("report-2023.csv", "2023"));
    assert!(str_contains("abc", ""));
    assert!(str_contains("abc", "abc"));
    assert!(!str_contains("abc", "abcd"));
    assert!(!str_contains("aab", "ba"));
}

#[test]
fn filter_bounds_are_inclusive() {
    let mut f = no_filter();
    f.min_size = Some(10);
    f.max_size = Some(20);
    assert!(f.matches(&rec("x", 10, None)));
    assert!(f.matches(&rec("x", 20, None)));
    assert!(!f.matches(&rec("x", 9, None)));
    assert!(!f.matches(&rec("x", 21, None)));
    let mut g = no_filter();
    g.min_modified = Some(100);
    g.max_modified = Some(200);
    assert!(g.matches(&rec("x", 0, Some(100))));
    assert!(!g.matches(&rec("x", 0, Some(201))));
    assert!(!g.matches(&rec("x", 0, None)));
    let mut h = no_filter();
    h.name = Some("log".to_string());
    assert!(h.matches(&rec("app.log", 0, None)));
    assert!(!h.matches(&rec("app.txt", 0, None)));
    assert!(no_filter().matches(&rec("anything", 0, None)));
}

#[test]
fn classifying_one_entry() {
    let mut dirs = Vec::new();
    let mut kept = Vec::new();
    process_file_object(rec("d/", 0, None), true, &None, &mut dirs, &mut kept);
    assert_eq!(dirs, vec!["d/".to_string()]);
    assert_eq!(kept.len(), 1);
    process_file_object(rec("e/", 0, None), false, &Some(no_filter()), &mut dirs, &mut kept);
    assert_eq!(dirs.len(), 1);
    assert_eq!(kept.len(), 1);
    let mut f = no_filter();
    f.min_size = Some(5);
    process_file_object(rec("small", 1, None), true, &Some(f.clone()), &mut dirs, &mut kept);
    process_file_object(rec("big", 9, None), true, &Some(f), &mut dirs, &mut kept);
    let names: Vec<&str> = kept.iter().map(|r| r.name()).collect();
    assert_eq!(names, vec!["d/", "big"]);
}

#[test]
fn classifying_a_page_keeps_order() {
    let entries = vec![rec("a", 1, None), rec("b/", 0, None), rec("c", 1, None)];
    let mut dirs = vec!["earlier/".to_string()];
    let mut kept = Vec::new();
    classify_entries(&entries, true, &None, &mut dirs, &mut kept);
    let names: Vec<&str> = kept.iter().map(|r| r.name()).collect();
    assert_eq!(names, vec!["a", "b/", "c"]);
    assert_eq!(dirs, vec!["earlier/".to_string(), "b/".to_string()]);
}

#[test]
fn response_body_outcomes() {
    let mut dirs = Vec::new();
    let mut kept = Vec::new();
    let r = process_response_body("", Err("x".to_string()), true, &None, &mut kept, &mut dirs);
    assert_eq!(r, Ok(None));
    let r = process_response_body("<bad", Err("x".to_string()), true, &None, &mut kept, &mut dirs);
    assert_eq!(r, Err(ListError::Parse("x".to_string())));
    let page = Page {
        entries: vec![rec("k", 1, None)],
        next_token: Some("tok".to_string()),
    };
    let r = process_response_body("<ok/>", Ok(page), true, &None, &mut kept, &mut dirs);
    assert_eq!(r, Ok(Some("tok".to_string())));
    assert_eq!(kept.len(), 1);
}

#[test]
fn fetch_follows_one_redirect() {
    let mut f = ObjectFetch::new("k".to_string(), "https://a".to_string());
    match f.on_outcome(TransportOutcome::Redirect("https://b".to_string())) {
        RequestStep::Retry(e) => assert_eq!(e, "https://b"),
        other => panic!("{:?}", other),
    }
    assert_eq!(f.endpoint, "https://b");
    match f.on_outcome(TransportOutcome::Success("data".to_string())) {
        RequestStep::Done(b) => assert_eq!(b, "data"),
        other => panic!("{:?}", other),
    }
}

#[test]
fn fetch_fails_on_second_redirect() {
    let mut f = ObjectFetch::new("k".to_string(), "https://a".to_string());
    f.on_outcome(TransportOutcome::Redirect("https://b".to_string()));
    match f.on_outcome(TransportOutcome::Redirect("https://c".to_string())) {
        RequestStep::Fail(e) => assert_eq!(e, ListError::RedirectLoop),
        other => panic!("{:?}", other),
    }
    assert_eq!(f.endpoint, "https://b");
}

#[test]
fn fetch_reports_transport_failure() {
    let mut f = ObjectFetch::new("k".to_string(), "https://a".to_string());
    match f.on_outcome(TransportOutcome::Failure("timeout".to_string())) {
        RequestStep::Fail(e) => assert_eq!(e, ListError::Transport("timeout".to_string())),
        other => panic!("{:?}", other),
    }
}

#[test]
fn settings_later_entry_wins() {
    let mut c = EnvironmentConfig::new();
    assert_eq!(c.get("K"), None);
    c.set("K".to_string(), "1".to_string());
    c.set("L".to_string(), "2".to_string());
    c.set("K".to_string(), "3".to_string());
    assert_eq!(c.get("K").map(|s| s.as_str()), Some("3"));
    assert_eq!(c.get("L").map(|s| s.as_str()), Some("2"));
    assert_eq!(c.clone().get("K").map(|s| s.as_str()), Some("3"));
}

#[test]
fn bucket_urls() {
    assert_eq!(
        configure_bucket_url("eu-west-1", None, Some("b")),
        "https://b.s3.eu-west-1.amazonaws.com"
    );
    assert_eq!(configure_bucket_url("eu-west-1", None, None), "https://s3.eu-west-1.amazonaws.com");
    assert_eq!(
        configure_bucket_url("r", Some("http://localhost:9000"), Some("b")),
        "http://localhost:9000/b"
    );
    assert_eq!(configure_bucket_url("r", Some("http://minio"), None), "http://minio");
}

#[test]
fn client_from_complete_settings() {
    let c = create_s3_client(&full_config(), Some("bucket")).unwrap();
    assert_eq!(c.region, "eu-west-1");
    assert_eq!(c.access_key, "AKID");
    assert_eq!(c.secret_key, "SECRET-REDACTED");
    assert_eq!(c.url, "https://bucket.s3.eu-west-1.amazonaws.com");
    let mut with_endpoint = full_config();
    with_endpoint.set("S3_ENDPOINT_URL".to_string(), "http://minio:9000".to_string());
    let c = create_s3_client(&with_endpoint, Some("bucket")).unwrap();
    assert_eq!(c.url, "http://minio:9000/bucket");
}

#[test]
fn client_needs_region_and_credentials() {
    let empty = EnvironmentConfig::new();
    assert_eq!(
        create_s3_client(&empty, None).unwrap_err(),
        ListError::Config("Missing AWS_REGION in the configuration".to_string())
    );
    let mut c = EnvironmentConfig::new();
    c.set("AWS_REGION".to_string(), "r".to_string());
    assert_eq!(
        create_s3_client(&c, None).unwrap_err(),
        ListError::Config("Missing AWS_ACCESS_KEY_ID in the configuration".to_string())
    );
    c.set("AWS_ACCESS_KEY_ID".to_string(), "a".to_string());
    assert_eq!(
        create_s3_client(&c, None).unwrap_err(),
        ListError::Config("Missing AWS_SECRET_ACCESS_KEY in the configuration".to_string())
    );
}

#[test]
fn prefixes_and_trimming() {
    assert!(starts_with("s3://b", "s3://"));
    assert!(!starts_with("s3:/", "s3://"));
    assert_eq!(trim_start_matches("s3://s3://b", "s3://"), "b");
    assert_eq!(trim_start_matches("bucket", "s3://"), "bucket");
    assert_eq!(trim_start_matches("abc", ""), "abc");
}

#[test]
fn store_kind_by_scheme() {
    assert_eq!(backend_for_uri("s3://b"), Some(BackendKind::S3));
    assert_eq!(backend_for_uri("localfs:///tmp"), Some(BackendKind::LocalFs));
    assert_eq!(backend_for_uri("gs://b"), None);
}

#[test]
fn opening_stores() {
    let s3 = ObjectStore::new("s3://my-bucket", full_config()).unwrap();
    assert_eq!(s3.name(), "my-bucket");
    assert_eq!(s3.uri(), "s3://my-bucket");
    assert_eq!(s3.config().get("AWS_REGION").map(|s| s.as_str()), Some("eu-west-1"));
    let local = ObjectStore::new("localfs:///data", EnvironmentConfig::new()).unwrap();
    assert_eq!(local.name(), "/data");
    assert_eq!(local.uri(), "/data");
    assert_eq!(
        ObjectStore::new("ftp://x", EnvironmentConfig::new()).unwrap_err(),
        "Unsupported object store."
    );
    assert_eq!(
        ObjectStore::new("s3://b", EnvironmentConfig::new()).unwrap_err(),
        "Missing AWS_REGION in the configuration"
    );
}

#[test]
fn backends_share_the_trait() {
    let b = S3Bucket::new("b", full_config()).unwrap();
    let l = LocalFsBucket::new("/tmp", EnvironmentConfig::new());
    assert_eq!(ObjectStoreTrait::name(&b), "b");
    assert_eq!(ObjectStoreTrait::name(&l), "/tmp");
    assert!(ObjectStoreTrait::config(&l).get("AWS_REGION").is_none());
}

#[test]
fn table_of_stores() {
    let mut t = ObjectStoreTable::new();
    assert_eq!(t.len(), 0);
    t.add_object_store(ObjectStore::new("s3://one", full_config()).unwrap()).unwrap();
    t.add_object_store(ObjectStore::new("localfs:///two", EnvironmentConfig::new()).unwrap())
        .unwrap();
    assert_eq!(t.len(), 2);
    assert_eq!(t.uri_at(0), "s3://one");
    assert_eq!(t.uri_at(1), "/two");
}

#[test]
fn unreadable_bucket_list_is_empty_not_an_error() {
    let r = list_buckets_outcome(Err(ListError::Parse("bad".to_string())));
    assert!(r.unwrap().is_empty());
    let r = list_buckets_outcome(Err(ListError::Transport("down".to_string())));
    assert!(r.unwrap().is_empty());
    let one = ObjectStore::new("s3://x", full_config()).unwrap();
    let r = list_buckets_outcome(Ok(vec![one]));
    assert_eq!(r.unwrap().len(), 1);
}

#[test]
fn error_messages() {
    assert_eq!(ListError::RedirectLoop.message(), "Redirected more than once");
    assert_eq!(ListError::Parse("p".to_string()).message(), "p");
    assert_eq!(ListError::Transport("t".to_string()).message(), "t");
    assert_eq!(ListError::Config("c".to_string()).message(), "c");
}

#[test]
fn profile_keeps_given_identifier() {
    let a = AppConfig::new("app::x".to_string(), "p".to_string(), Some("id-1".to_string()));
    assert_eq!(a.profile_id(), "id-1");
    assert_eq!(a.profile_name(), "p");
    assert_eq!(a.app_uri(), "app::x");
    assert_eq!(a.clone().profile_id(), "id-1");
}

#[test]
fn profile_gets_fresh_identifier() {
    let a = AppConfig::new("app::x".to_string(), "p".to_string(), None);
    let b = AppConfig::new("app::x".to_string(), "p".to_string(), None);
    assert_eq!(a.profile_id().len(), 36);
    assert_eq!(a.profile_id().matches('-').count(), 4);
    assert_ne!(a.profile_id(), b.profile_id());
}

#[test]
fn rows_name_only_the_uri_column() {
    let mut t = ObjectStoreTable::new();
    t.add_row(vec![("uri".to_string(), "s3://a".to_string())]).unwrap();
    let err = t
        .add_row(vec![
            ("uri".to_string(), "s3://b".to_string()),
            ("size".to_string(), "1".to_string()),
            ("kind".to_string(), "x".to_string()),
        ])
        .unwrap_err();
    assert_eq!(err, "Column not found: size");
    assert_eq!(t.len(), 1);
    t.add_row(vec![
        ("uri".to_string(), "s3://c".to_string()),
        ("uri".to_string(), "s3://d".to_string()),
    ])
    .unwrap();
    assert_eq!(t.len(), 3);
    assert_eq!(t.uri_at(2), "s3://d");
}
