use etagged_file_response::fingerprint_bytes;
use etagged_file_response::EtaggedFileResponse;
use etagged_file_response::FingerprintStore;

#[test]
fn store_returns_what_was_cached() {
    let mut store = FingerprintStore::new();
    let path = "/srv/a.txt".to_string();
    let fp = fingerprint_bytes(b"hello");
    assert_eq!(store.get(&path), None);
    store.insert_if_absent(&path, fp.clone());
    assert_eq!(store.get(&path), Some(fp));
}

#[test]
fn store_never_replaces_a_cached_fingerprint() {
    let mut store = FingerprintStore::new();
    let path = "/srv/a.txt".to_string();
    let first = fingerprint_bytes(b"hello");
    let second = fingerprint_bytes(b"hello2");
    store.insert_if_absent(&path, first.clone());
    store.insert_if_absent(&path, second);
    assert_eq!(store.get(&path), Some(first));
}

#[test]
fn store_keeps_distinct_paths_independent() {
    let mut store = FingerprintStore::new();
    let paths: Vec<String> = (0..20).map(|i| format!("/srv/file-{}.txt", i)).collect();
    let fps: Vec<String> = (0..20).map(|i| fingerprint_bytes(format!("content {}", i).as_bytes())).collect();
    for (p, f) in paths.iter().zip(fps.iter()) {
        store.insert_if_absent(p, f.clone());
    }
    for (p, f) in paths.iter().zip(fps.iter()) {
        assert_eq!(store.get(p), Some(f.clone()));
    }
    assert_eq!(store.get(&"/srv/other.txt".to_string()), None);
}

#[test]
fn etag_map_lookup_and_store() {
    let map = EtaggedFileResponse::new_etag_map();
    let path = "/srv/a.txt".to_string();
    let fp = fingerprint_bytes(b"hello");
    assert_eq!(map.lookup(&path), None);
    assert!(map.store(&path, fp.clone()));
    assert_eq!(map.lookup(&path), Some(fp));
}

#[test]
fn etag_map_keeps_first_fingerprint() {
    let map = EtaggedFileResponse::new_etag_map();
    let path = "/srv/a.txt".to_string();
    let first = fingerprint_bytes(b"hello");
    assert!(map.store(&path, first.clone()));
    assert!(map.store(&path, fingerprint_bytes(b"hello2")));
    assert_eq!(map.lookup(&path), Some(first));
}

#[test]
fn etag_map_rejects_strings_without_fingerprint_shape() {
    let map = EtaggedFileResponse::new_etag_map();
    let path = "/srv/a.txt".to_string();
    assert!(!map.store(&path, "".to_string()));
    assert!(!map.store(&path, "zz".to_string()));
    assert!(!map.store(&path, "0ABC".to_string()));
    assert!(!map.store(&path, "a1".to_string()));
    assert_eq!(map.lookup(&path), None);
    assert!(map.store(&path, "0".to_string()));
    assert!(map.store(&"/srv/b.txt".to_string(), "1F".to_string()));
}

#[test]
fn etag_map_distinct_paths_are_independent() {
    let map = EtaggedFileResponse::new_etag_map();
    let p1 = "/srv/a.txt".to_string();
    let p2 = "/srv/b.txt".to_string();
    let f1 = fingerprint_bytes(b"aaa");
    let f2 = fingerprint_bytes(b"bbb");
    assert!(map.store(&p1, f1.clone()));
    assert!(map.store(&p2, f2.clone()));
    assert_eq!(map.lookup(&p1), Some(f1));
    assert_eq!(map.lookup(&p2), Some(f2));
}
