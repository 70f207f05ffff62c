use dir_watch::{Action, CacheRequest, CacheResponse, Data, EventCache, MetadataWrapper};

fn meta(kind: &str, len: u64) -> MetadataWrapper {
    MetadataWrapper {
        file_type: kind.to_string(),
        is_dir: false,
        is_file: true,
        is_symlink: false,
        len_in_bytes: len,
        permissions: "40".to_string(),
        modified: "2024-01-01T00:00:00+00:00".to_string(),
        accessed: "2024-01-01T00:00:00+00:00".to_string(),
        created: "2024-01-01T00:00:00+00:00".to_string(),
    }
}

#[test]
fn put_and_get_test() {
    let mut cacher = EventCache::new();
    cacher.put(String::new(), Data::new(Action::Created, None));
    for (key, value) in cacher.get() {
        assert_eq!((key, value), (String::new(), Data::new(Action::Created, None)));
    }
}

#[test]
fn pop_test() {
    let mut cacher = EventCache::new();
    cacher.put(String::new(), Data::new(Action::Created, None));
    let item = cacher.pop();
    assert_eq!(item, Some((String::new(), Data::new(Action::Created, None))));
    assert_eq!(cacher.is_empty(), true);
}

#[test]
fn snapshot_holds_the_single_upsert() {
    let mut cache = EventCache::new();
    cache.put("/tmp/a.txt".to_string(), Data::new(Action::Created, None));
    assert_eq!(cache.get(), vec![("/tmp/a.txt".to_string(), Data::new(Action::Created, None))]);
}

#[test]
fn pop_returns_the_upsert_then_empty() {
    let mut cache = EventCache::new();
    cache.put("/tmp/a.txt".to_string(), Data::new(Action::Created, None));
    assert_eq!(cache.pop(), Some(("/tmp/a.txt".to_string(), Data::new(Action::Created, None))));
    assert!(cache.is_empty());
}

#[test]
fn later_upsert_replaces_earlier() {
    let mut cache = EventCache::new();
    let m1 = meta("file", 1);
    let m2 = meta("file", 2);
    cache.put("/tmp/a.txt".to_string(), Data::new(Action::Created, Some(m1)));
    cache.put("/tmp/a.txt".to_string(), Data::new(Action::Modified, Some(m2.clone())));
    let snap = cache.get();
    assert_eq!(snap.len(), 1);
    assert_eq!(snap[0], ("/tmp/a.txt".to_string(), Data::new(Action::Modified, Some(m2))));
}

#[test]
fn many_upserts_to_one_path_keep_the_last() {
    let mut cache = EventCache::new();
    cache.put("/b".to_string(), Data::new(Action::Deleted, None));
    let actions = [Action::Created, Action::Modified, Action::RenamedTo, Action::RenamedFrom];
    for a in actions.iter() {
        cache.put("/a".to_string(), Data::new(*a, None));
    }
    assert_eq!(cache.len(), 2);
    assert_eq!(
        cache.get(),
        vec![
            ("/b".to_string(), Data::new(Action::Deleted, None)),
            ("/a".to_string(), Data::new(Action::RenamedFrom, None)),
        ]
    );
}

#[test]
fn paths_are_not_normalised() {
    let mut cache = EventCache::new();
    cache.put("C:\\A".to_string(), Data::new(Action::Created, None));
    cache.put("C:\\a".to_string(), Data::new(Action::Created, None));
    cache.put("C:/A".to_string(), Data::new(Action::Created, None));
    assert_eq!(cache.len(), 3);
}

#[test]
fn snapshot_twice_is_identical() {
    let mut cache = EventCache::new();
    cache.put("/x".to_string(), Data::new(Action::Created, Some(meta("directory", 0))));
    cache.put("/y".to_string(), Data::new(Action::Deleted, None));
    let first = cache.get();
    let second = cache.get();
    assert_eq!(first, second);
    assert_eq!(first.len(), 2);
}

#[test]
fn pop_on_empty_returns_none() {
    let mut cache = EventCache::new();
    assert!(cache.is_empty());
    assert_eq!(cache.pop(), None);
    assert!(cache.is_empty());
}

#[test]
fn pops_drain_oldest_first() {
    let mut cache = EventCache::new();
    let paths = ["/1", "/2", "/3"];
    for p in paths.iter() {
        cache.put(p.to_string(), Data::new(Action::Modified, None));
    }
    cache.put("/2".to_string(), Data::new(Action::Deleted, None));
    assert_eq!(cache.pop(), Some(("/1".to_string(), Data::new(Action::Modified, None))));
    assert_eq!(cache.pop(), Some(("/2".to_string(), Data::new(Action::Deleted, None))));
    assert!(!cache.is_empty());
    assert_eq!(cache.pop(), Some(("/3".to_string(), Data::new(Action::Modified, None))));
    assert!(cache.is_empty());
    assert_eq!(cache.pop(), None);
}

#[test]
fn handle_serves_each_request() {
    let mut cache = EventCache::new();
    assert!(matches!(cache.handle(CacheRequest::IsEmpty), Some(CacheResponse::IsEmpty(true))));
    assert!(cache
        .handle(CacheRequest::Put("/p".to_string(), Data::new(Action::Created, None)))
        .is_none());
    match cache.handle(CacheRequest::Get) {
        Some(CacheResponse::Get(v)) => {
            assert_eq!(v, vec![("/p".to_string(), Data::new(Action::Created, None))])
        }
        _ => panic!("expected a snapshot"),
    }
    assert!(matches!(cache.handle(CacheRequest::IsEmpty), Some(CacheResponse::IsEmpty(false))));
    match cache.handle(CacheRequest::Pop) {
        Some(CacheResponse::Pop(p)) => {
            assert_eq!(p, Some(("/p".to_string(), Data::new(Action::Created, None))))
        }
        _ => panic!("expected a pop reply"),
    }
    match cache.handle(CacheRequest::Pop) {
        Some(CacheResponse::Pop(p)) => assert_eq!(p, None),
        _ => panic!("expected a pop reply"),
    }
}
