//! The life of one served file: a first request fills the cache, a matching
//! validator short-circuits the second, and a change on disk is deliberately
//! not noticed — the no-invalidation policy serves the new bytes under the
//! old validator.

use etagged_file_response::fingerprint_bytes;
use etagged_file_response::validate;
use etagged_file_response::EtaggedFileResponse;
use etagged_file_response::ValidationOutcome;

#[test]
fn served_file_lifecycle() {
    let path = "/srv/a.txt".to_string();
    let map = EtaggedFileResponse::new_etag_map();
    let content = b"hello";

    // First request: no validator. The cache is empty, so the content is
    // hashed, cached, and served in full with its metadata.
    assert_eq!(map.lookup(&path), None);
    let fp = fingerprint_bytes(content);
    assert!(map.store(&path, fp.clone()));
    assert_eq!(validate(None, &fp), ValidationOutcome::Changed);
    let first = EtaggedFileResponse::full(fp.clone(), &path, content.len() as u64);
    assert!(!first.is_etag_match);
    assert_eq!(first.etag, fp);
    assert_eq!(first.content_type, Some("text/plain".to_string()));
    assert_eq!(first.content_length, Some(5));

    // Second request: the client echoes the fingerprint back. The cached
    // fingerprint matches, so the response is bare "not modified".
    let cached = map.lookup(&path).unwrap();
    assert_eq!(validate(Some(&fp.clone()), &cached), ValidationOutcome::Matched);
    let second = EtaggedFileResponse::not_modified(cached.clone());
    assert!(second.is_etag_match);
    assert_eq!(second.content_type, None);
    assert_eq!(second.content_length, None);

    // The content on disk changes, but the cache is never invalidated: the
    // stale fingerprint stays, and a request serves the new bytes under the
    // old validator. This is the stated staleness policy, not a bug.
    let new_content = b"hello2";
    let fresh_fp = fingerprint_bytes(new_content);
    assert_ne!(fresh_fp, fp);
    let still_cached = map.lookup(&path).unwrap();
    assert_eq!(still_cached, fp);
    assert!(map.store(&path, fresh_fp));
    assert_eq!(map.lookup(&path).unwrap(), fp);
    let third = EtaggedFileResponse::full(fp.clone(), &path, new_content.len() as u64);
    assert_eq!(third.etag, fp);
    assert_eq!(third.content_length, Some(6));
}
