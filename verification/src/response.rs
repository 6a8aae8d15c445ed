//! The response decision: compare the client's validator against the current
//! fingerprint and shape either a "not modified" response without a body or a
//! "full content" response with cache metadata.

use vstd::prelude::*;

use crate::content_type::content_type_for;
use crate::content_type::content_type_spec;
use crate::content_type::opt_str_view;
use crate::store::EtagMap;

verus! {

/// The outcome of validating a client-supplied validator against the current
/// fingerprint: either they are exactly equal, or the content counts as
/// changed. No other states exist.
#[derive(PartialEq, Eq, Structural, Clone, Copy, Debug)]
pub enum ValidationOutcome {
    Matched,
    Changed,
}

/// Validation: `Matched` exactly when a validator was supplied and equals the
/// fingerprint character for character; an absent validator always counts as
/// `Changed`.
pub open spec fn outcome_spec(validator: Option<Seq<char>>, fingerprint: Seq<char>) -> ValidationOutcome {
    if validator == Some(fingerprint) {
        ValidationOutcome::Matched
    } else {
        ValidationOutcome::Changed
    }
}

/// The view of an optional borrowed string.
pub open spec fn opt_ref_view(s: Option<&String>) -> Option<Seq<char>> {
    match s {
        Some(t) => Some(t@),
        None => None,
    }
}

/// Compare the client's validator, if any, against the current fingerprint by
/// exact string equality.
pub fn validate(validator: Option<&String>, fingerprint: &String) -> (r: ValidationOutcome)
    ensures
        r == outcome_spec(opt_ref_view(validator), fingerprint@),
{
    match validator {
        Some(v) => {
            if *v == *fingerprint {
                ValidationOutcome::Matched
            } else {
                ValidationOutcome::Changed
            }
        },
        None => ValidationOutcome::Changed,
    }
}

/// Validation correctness: the outcome is `Matched` exactly when the supplied
/// validator equals the current fingerprint, and `Changed` whenever it
/// differs or is absent.
pub proof fn lemma_validation_correct(validator: Option<Seq<char>>, fingerprint: Seq<char>)
    ensures
        outcome_spec(validator, fingerprint) is Matched <==> validator == Some(fingerprint),
        validator is None ==> outcome_spec(validator, fingerprint) is Changed,
{
}

/// The response for one request: either "not modified" with no body and no
/// content metadata, or "full content" with the fingerprint as validator,
/// the inferred content type and the byte length. The body stream itself is
/// opened and attached by the serving layer.
pub struct EtaggedFileResponse {
    /// Whether the client's validator matched, so that no body is sent.
    pub is_etag_match: bool,
    /// The fingerprint of the file's content.
    pub etag: String,
    /// The content type inferred from the file extension, if known.
    pub content_type: Option<String>,
    /// The file's byte length, when a body is sent.
    pub content_length: Option<u64>,
}

/// How one response is written out: a status code, the cache and content
/// headers it carries, and whether the file's bytes follow.
pub struct ResponsePlan {
    /// 304 for "not modified", 200 for "full content".
    pub status_code: u16,
    /// The fingerprint sent as a strong validator, on a full response.
    pub etag_header: Option<String>,
    /// The content type header, when known.
    pub content_type: Option<String>,
    /// The content length header, when known.
    pub content_length: Option<u64>,
    /// Whether the file's bytes are streamed after the headers.
    pub send_body: bool,
}

impl EtaggedFileResponse {
    /// The "not modified" response: the validator matched, so no body is sent
    /// and no content metadata is computed at all.
    pub fn not_modified(fingerprint: String) -> (r: Self)
        ensures
            r.is_etag_match,
            r.etag@ == fingerprint@,
            r.content_type is None,
            r.content_length is None,
    {
        EtaggedFileResponse {
            is_etag_match: true,
            etag: fingerprint,
            content_type: None,
            content_length: None,
        }
    }

    /// The "full content" response: the fingerprint travels as a strong
    /// validator, the content type is inferred from the path's extension, and
    /// the byte length is the one just read from the file's metadata.
    pub fn full(fingerprint: String, path: &str, file_size: u64) -> (r: Self)
        ensures
            !r.is_etag_match,
            r.etag@ == fingerprint@,
            opt_str_view(r.content_type) == content_type_spec(path@),
            r.content_length == Some(file_size),
    {
        EtaggedFileResponse {
            is_etag_match: false,
            etag: fingerprint,
            content_type: content_type_for(path),
            content_length: Some(file_size),
        }
    }

    /// How this response is written out: a matched validator yields status
    /// 304 with no headers and no body; anything else yields status 200, the
    /// fingerprint as validator header, the content headers that are known,
    /// and the body.
    pub fn response_plan(self) -> (r: ResponsePlan)
        ensures
            self.is_etag_match ==> {
                &&& r.status_code == 304
                &&& r.etag_header is None
                &&& r.content_type is None
                &&& r.content_length is None
                &&& !r.send_body
            },
            !self.is_etag_match ==> {
                &&& r.status_code == 200
                &&& r.etag_header matches Some(e) && e@ == self.etag@
                &&& r.content_type == self.content_type
                &&& r.content_length == self.content_length
                &&& r.send_body
            },
    {
        if self.is_etag_match {
            ResponsePlan {
                status_code: 304,
                etag_header: None,
                content_type: None,
                content_length: None,
                send_body: false,
            }
        } else {
            ResponsePlan {
                status_code: 200,
                etag_header: Some(self.etag),
                content_type: self.content_type,
                content_length: self.content_length,
                send_body: true,
            }
        }
    }

    /// A fresh, empty fingerprint cache, to be constructed once per server
    /// process and shared by every request handler.
    pub fn new_etag_map() -> (r: EtagMap) {
        EtagMap::new()
    }
}

} // verus!
