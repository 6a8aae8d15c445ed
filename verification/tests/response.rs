use etagged_file_response::content_type_for;
use etagged_file_response::fingerprint::check_etag_str;
use etagged_file_response::fingerprint_bytes;
use etagged_file_response::validate;
use etagged_file_response::EtaggedFileResponse;
use etagged_file_response::ValidationOutcome;

#[test]
fn equal_validator_matches() {
    let fp = fingerprint_bytes(b"hello");
    assert_eq!(validate(Some(&fp.clone()), &fp), ValidationOutcome::Matched);
}

#[test]
fn differing_validator_counts_as_changed() {
    let fp = fingerprint_bytes(b"hello");
    let other = fingerprint_bytes(b"hello2");
    assert_eq!(validate(Some(&other), &fp), ValidationOutcome::Changed);
}

#[test]
fn absent_validator_counts_as_changed() {
    let fp = fingerprint_bytes(b"hello");
    assert_eq!(validate(None, &fp), ValidationOutcome::Changed);
}

#[test]
fn not_modified_response_carries_no_content_metadata() {
    let fp = fingerprint_bytes(b"hello");
    let r = EtaggedFileResponse::not_modified(fp.clone());
    assert!(r.is_etag_match);
    assert_eq!(r.etag, fp);
    assert_eq!(r.content_type, None);
    assert_eq!(r.content_length, None);
}

#[test]
fn full_response_carries_fingerprint_type_and_length() {
    let fp = fingerprint_bytes(b"hello");
    let r = EtaggedFileResponse::full(fp.clone(), "/srv/a.txt", 5);
    assert!(!r.is_etag_match);
    assert_eq!(r.etag, fp);
    assert_eq!(r.content_type, Some("text/plain".to_string()));
    assert_eq!(r.content_length, Some(5));
}

#[test]
fn extension_lookup_is_case_insensitive() {
    assert_eq!(content_type_for("/srv/A.TXT"), Some("text/plain".to_string()));
    assert_eq!(content_type_for("/srv/page.HtMl"), content_type_for("/srv/page.html"));
}

#[test]
fn known_extensions_map_to_their_mime_type() {
    assert_eq!(content_type_for("/srv/a.txt"), Some("text/plain".to_string()));
    assert_eq!(content_type_for("/srv/a.html"), Some("text/html".to_string()));
    assert_eq!(content_type_for("/srv/a.png"), Some("image/png".to_string()));
}

#[test]
fn unknown_or_missing_extension_yields_no_content_type() {
    assert_eq!(content_type_for("/srv/a.zzzyyqq"), None);
    assert_eq!(content_type_for("/srv/readme"), None);
    assert_eq!(content_type_for("/srv/.bashrc"), None);
    assert_eq!(content_type_for("/srv/archive."), None);
}

#[test]
fn extension_comes_from_final_component_only() {
    assert_eq!(content_type_for("/srv/files.d/readme"), None);
    assert_eq!(content_type_for("/srv/files.d/a.txt"), Some("text/plain".to_string()));
}

#[test]
fn matched_response_plan_is_bare_not_modified() {
    let fp = fingerprint_bytes(b"hello");
    let plan = EtaggedFileResponse::not_modified(fp).response_plan();
    assert_eq!(plan.status_code, 304);
    assert_eq!(plan.etag_header, None);
    assert_eq!(plan.content_type, None);
    assert_eq!(plan.content_length, None);
    assert!(!plan.send_body);
}

#[test]
fn changed_response_plan_carries_headers_and_body() {
    let fp = fingerprint_bytes(b"hello");
    let plan = EtaggedFileResponse::full(fp.clone(), "/srv/a.txt", 5).response_plan();
    assert_eq!(plan.status_code, 200);
    assert_eq!(plan.etag_header, Some(fp));
    assert_eq!(plan.content_type, Some("text/plain".to_string()));
    assert_eq!(plan.content_length, Some(5));
    assert!(plan.send_body);
}

#[test]
fn fingerprint_shape_check() {
    assert!(check_etag_str(&"0".to_string()));
    assert!(check_etag_str(&"995DC9BBDF1939FA".to_string()));
    assert!(!check_etag_str(&"".to_string()));
    assert!(!check_etag_str(&"0F".to_string()));
    assert!(!check_etag_str(&"ff".to_string()));
    assert!(!check_etag_str(&"12G".to_string()));
    assert!(check_etag_str(&fingerprint_bytes(b"whatever content")));
}
