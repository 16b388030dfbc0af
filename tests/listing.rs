use lakestream::{
    get_effective_max_keys, FileObjectFilter, ListError, ListFilesParams, ListingStatus,
    ObjectRecord, Page, PageEvent, PageRequest, Traversal, AWS_MAX_LIST_OBJECTS,
};

fn rec(name: &str) -> ObjectRecord {
    ObjectRecord::new(name.to_string(), 10, Some(1_000))
}

fn sized(name: &str, size: u64) -> ObjectRecord {
    ObjectRecord::new(name.to_string(), size, Some(1_000))
}

fn page(names: &[&str], token: Option<&str>) -> PageEvent {
    PageEvent::Received(
        "<ListBucketResult/>".to_string(),
        Ok(Page {
            entries: names.iter().map(|n| rec(n)).collect(),
            next_token: token.map(|t| t.to_string()),
        }),
    )
}

fn params(prefix: Option<&str>, recursive: bool, max_keys: Option<u32>) -> ListFilesParams {
    ListFilesParams {
        prefix: prefix.map(|p| p.to_string()),
        max_keys,
        continuation_token: None,
        recursive,
        filter: None,
    }
}

fn names(t: &Traversal) -> Vec<String> {
    t.results().iter().map(|r| r.name.clone()).collect()
}

fn request_key(r: &PageRequest) -> (Option<String>, Option<String>) {
    (r.prefix.clone(), r.continuation_token.clone())
}

/// The store of the worked example: pages by (prefix, token).
fn example_store(prefix: &Option<String>, token: &Option<String>) -> PageEvent {
    match (prefix.as_deref(), token.as_deref()) {
        (Some("a/"), None) => page(&["a/x", "a/sub/"], Some("T1")),
        (Some("a/"), Some("T1")) => page(&["a/y"], None),
        (Some("a/sub/"), None) => page(&["a/sub/z"], None),
        other => panic!("unexpected request {:?}", other),
    }
}

/// Runs a listing against `store`, returning the requests made.
fn run(
    t: &mut Traversal,
    store: impl Fn(&Option<String>, &Option<String>) -> PageEvent,
) -> Vec<(Option<String>, Option<String>)> {
    let mut requests = Vec::new();
    while let Some(req) = t.next_request() {
        requests.push(request_key(&req));
        let ev = store(&req.prefix, &req.continuation_token);
        t.step(ev);
        assert!(requests.len() < 100);
    }
    requests
}

#[test]
fn recursive_listing_follows_pages_then_directories() {
    let mut t = Traversal::new(params(Some("a/"), true, Some(10)), "https://e".to_string());
    let requests = run(&mut t, example_store);
    assert_eq!(names(&t), vec!["a/x", "a/sub/", "a/y", "a/sub/z"]);
    assert_eq!(
        requests,
        vec![
            (Some("a/".to_string()), None),
            (Some("a/".to_string()), Some("T1".to_string())),
            (Some("a/sub/".to_string()), None),
        ]
    );
    assert!(matches!(t.status(), ListingStatus::Finished));
    let out = t.finish().unwrap();
    assert_eq!(out.len(), 4);
}

#[test]
fn cap_stops_before_any_further_request() {
    let mut t = Traversal::new(params(Some("a/"), true, Some(2)), "https://e".to_string());
    let requests = run(&mut t, example_store);
    assert_eq!(names(&t), vec!["a/x", "a/sub/"]);
    assert_eq!(requests, vec![(Some("a/".to_string()), None)]);
    assert!(t.next_request().is_none());
}

#[test]
fn cap_is_exact_when_enough_entries_exist() {
    for n in 0..=4u32 {
        let mut t = Traversal::new(params(Some("a/"), true, Some(n)), "https://e".to_string());
        run(&mut t, example_store);
        assert_eq!(t.results().len(), n as usize);
    }
    let mut t = Traversal::new(params(Some("a/"), true, Some(7)), "https://e".to_string());
    run(&mut t, example_store);
    assert_eq!(t.results().len(), 4);
}

#[test]
fn cap_drops_the_rest_of_a_page() {
    let mut t = Traversal::new(params(None, false, Some(3)), "https://e".to_string());
    let added = t.step(page(&["p", "q", "r", "s", "t"], Some("more")));
    assert_eq!(added, 3);
    assert_eq!(names(&t), vec!["p", "q", "r"]);
    assert!(t.next_request().is_none());
}

#[test]
fn zero_cap_sends_nothing() {
    let t = Traversal::new(params(Some("a/"), true, Some(0)), "https://e".to_string());
    assert!(t.next_request().is_none());
    assert!(t.finish().unwrap().is_empty());
}

#[test]
fn default_cap_is_the_largest_page() {
    let mut t = Traversal::new(params(None, false, None), "https://e".to_string());
    let many: Vec<String> = (0..1500).map(|i| format!("k{}", i)).collect();
    let refs: Vec<&str> = many.iter().map(|s| s.as_str()).collect();
    t.step(page(&refs, Some("next")));
    assert_eq!(t.results().len(), AWS_MAX_LIST_OBJECTS as usize);
    assert!(t.next_request().is_none());
}

#[test]
fn filter_keeps_only_matching_objects() {
    let filter = FileObjectFilter {
        name: Some(".csv".to_string()),
        min_size: Some(5),
        max_size: None,
        min_modified: None,
        max_modified: None,
    };
    let mut p = params(Some("d/"), true, Some(10));
    p.filter = Some(filter.clone());
    let mut t = Traversal::new(p, "https://e".to_string());
    let req = t.next_request().unwrap();
    assert_eq!(req.max_keys, AWS_MAX_LIST_OBJECTS);
    t.step(PageEvent::Received(
        "body".to_string(),
        Ok(Page {
            entries: vec![
                sized("d/a.csv", 10),
                sized("d/b.csv", 1),
                sized("d/c.txt", 10),
                sized("d/e.csv/", 10),
            ],
            next_token: None,
        }),
    ));
    assert_eq!(names(&t), vec!["d/a.csv"]);
    for r in t.results() {
        assert!(filter.matches(r));
        assert!(!r.is_directory());
    }
    let next = t.next_request().unwrap();
    assert_eq!(next.prefix.as_deref(), Some("d/e.csv/"));
}

#[test]
fn directories_are_results_without_a_filter() {
    let mut t = Traversal::new(params(None, false, Some(10)), "https://e".to_string());
    t.step(page(&["x/", "y"], None));
    assert_eq!(names(&t), vec!["x/", "y"]);
    assert!(t.next_request().is_none());
}

#[test]
fn split_pages_give_the_same_results_as_one_page() {
    let all = ["a", "b/", "c", "d", "e/"];
    let mut one = Traversal::new(params(None, false, Some(100)), "https://e".to_string());
    one.step(page(&all, None));
    let mut split = Traversal::new(params(None, false, Some(100)), "https://e".to_string());
    split.step(page(&all[..2], Some("t1")));
    split.step(page(&all[2..4], Some("t2")));
    split.step(page(&all[4..], None));
    assert_eq!(names(&one), names(&split));
    assert_eq!(names(&one), vec!["a", "b/", "c", "d", "e/"]);
}

#[test]
fn flat_listing_never_leaves_its_prefix() {
    let mut t = Traversal::new(params(Some("a/"), false, Some(10)), "https://e".to_string());
    let requests = run(&mut t, example_store);
    assert_eq!(
        requests,
        vec![
            (Some("a/".to_string()), None),
            (Some("a/".to_string()), Some("T1".to_string())),
        ]
    );
    assert_eq!(names(&t), vec!["a/x", "a/sub/", "a/y"]);
}

#[test]
fn directories_are_listed_first_found_first_and_once() {
    let store = |prefix: &Option<String>, _token: &Option<String>| match prefix.as_deref() {
        None => page(&["b/", "a/", "b/"], None),
        Some("b/") => page(&["b/c/", "a/"], None),
        Some("a/") => page(&["a/f"], None),
        Some("b/c/") => page(&["b/c/g"], None),
        other => panic!("unexpected prefix {:?}", other),
    };
    let mut t = Traversal::new(params(None, true, Some(100)), "https://e".to_string());
    let requests = run(&mut t, store);
    let prefixes: Vec<Option<String>> = requests.into_iter().map(|r| r.0).collect();
    assert_eq!(
        prefixes,
        vec![
            None,
            Some("b/".to_string()),
            Some("a/".to_string()),
            Some("b/c/".to_string()),
        ]
    );
}

#[test]
fn one_redirect_costs_one_extra_request() {
    let mut t = Traversal::new(params(Some("a/"), true, Some(10)), "https://old".to_string());
    let mut sent = 0;
    let mut redirected = false;
    while let Some(req) = t.next_request() {
        sent += 1;
        if !redirected {
            redirected = true;
            assert_eq!(req.endpoint, "https://old");
            t.step(PageEvent::Redirected("https://new".to_string()));
            let again = t.next_request().unwrap();
            assert_eq!(request_key(&again), request_key(&req));
            assert_eq!(again.endpoint, "https://new");
            continue;
        }
        assert_eq!(req.endpoint, "https://new");
        t.step(example_store(&req.prefix, &req.continuation_token));
    }
    assert_eq!(sent, 3 + 1);
    assert_eq!(names(&t), vec!["a/x", "a/sub/", "a/y", "a/sub/z"]);
    assert_eq!(t.endpoint(), "https://new");
}

#[test]
fn two_redirects_in_a_row_are_a_loop() {
    let mut t = Traversal::new(params(Some("a/"), true, Some(10)), "https://old".to_string());
    t.step(PageEvent::Redirected("https://new".to_string()));
    t.step(PageEvent::Redirected("https://newer".to_string()));
    assert!(t.next_request().is_none());
    assert_eq!(t.finish().unwrap_err(), ListError::RedirectLoop);
}

#[test]
fn a_redirect_per_request_is_tolerated() {
    let mut t = Traversal::new(params(Some("a/"), false, Some(10)), "https://one".to_string());
    t.step(PageEvent::Redirected("https://two".to_string()));
    t.step(page(&["a/x"], Some("T")));
    t.step(PageEvent::Redirected("https://three".to_string()));
    t.step(page(&["a/y"], None));
    assert_eq!(t.endpoint(), "https://three");
    assert_eq!(t.finish().unwrap().len(), 2);
}

#[test]
fn failed_request_aborts_the_listing() {
    let mut t = Traversal::new(params(Some("a/"), true, Some(10)), "https://e".to_string());
    t.step(page(&["a/x"], Some("T")));
    t.step(PageEvent::Failed(ListError::Transport("connection reset".to_string())));
    assert!(t.next_request().is_none());
    assert_eq!(
        t.finish().unwrap_err(),
        ListError::Transport("connection reset".to_string())
    );
}

#[test]
fn unreadable_object_page_is_a_parse_error() {
    let mut t = Traversal::new(params(Some("a/"), true, Some(10)), "https://e".to_string());
    t.step(PageEvent::Received("<oops".to_string(), Err("bad xml".to_string())));
    assert_eq!(t.finish().unwrap_err(), ListError::Parse("bad xml".to_string()));
}

#[test]
fn empty_body_ends_the_prefix() {
    let mut t = Traversal::new(params(Some("a/"), true, Some(10)), "https://e".to_string());
    t.step(PageEvent::Received(String::new(), Err("ignored".to_string())));
    assert!(t.next_request().is_none());
    assert!(t.finish().unwrap().is_empty());
}

#[test]
fn starting_token_is_sent_first() {
    let mut p = params(Some("a/"), false, Some(10));
    p.continuation_token = Some("T1".to_string());
    let t = Traversal::new(p, "https://e".to_string());
    let req = t.next_request().unwrap();
    assert_eq!(req.continuation_token.as_deref(), Some("T1"));
}

#[test]
fn effective_page_size() {
    let f = Some(FileObjectFilter {
        name: None,
        min_size: None,
        max_size: None,
        min_modified: None,
        max_modified: None,
    });
    assert_eq!(get_effective_max_keys(&None, Some(5)), 5);
    assert_eq!(get_effective_max_keys(&None, Some(5000)), 1000);
    assert_eq!(get_effective_max_keys(&None, None), 1000);
    assert_eq!(get_effective_max_keys(&f, Some(5)), 1000);
    let t = Traversal::new(params(None, false, Some(7)), "https://e".to_string());
    assert_eq!(t.next_request().unwrap().max_keys, 7);
}

#[test]
fn decoded_pages_are_taken_like_parsed_ones() {
    let mut t = Traversal::new(params(None, true, Some(10)), "/data".to_string());
    t.step(PageEvent::Listed(Page {
        entries: vec![rec("a"), rec("d/")],
        next_token: None,
    }));
    assert_eq!(names(&t), vec!["a", "d/"]);
    assert_eq!(t.next_request().unwrap().prefix.as_deref(), Some("d/"));
    t.step(PageEvent::Listed(Page { entries: vec![rec("d/b")], next_token: None }));
    assert_eq!(names(&t), vec!["a", "d/", "d/b"]);
    assert!(t.next_request().is_none());
}
