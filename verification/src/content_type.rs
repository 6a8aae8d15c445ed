//! Inferring a content type from a file path: the extension is cut out of the
//! path, folded to lower case, and looked up in a static extension-to-MIME
//! table. An unknown or missing extension yields no content type, never an
//! error.

use vstd::prelude::*;
use vstd::string::StrSliceExecFns;

verus! {

/// What `str::to_lowercase` returns: the result depends on the characters
/// alone.
pub uninterp spec fn lower_of(s: Seq<char>) -> Seq<char>;

/// What `mime_guess` answers for an extension: the MIME type of its static
/// table, or nothing for an extension the table does not know.
pub uninterp spec fn mime_of(ext: Seq<char>) -> Option<Seq<char>>;

/// Relies on `str::to_lowercase`: the lowercase mapping of the characters,
/// which leaves an empty string empty.
#[verifier::external_body]
fn lowercase(s: &str) -> (r: String)
    ensures
        r@ == lower_of(s@),
        s@.len() == 0 ==> r@.len() == 0,
{
    s.to_lowercase()
}

/// Relies on `mime_guess::from_ext` followed by `MimeGuess::first_raw`: a
/// lookup of the extension in a static table, returning its first MIME type
/// as a string, or nothing for an unknown or empty extension.
#[verifier::external_body]
fn mime_lookup(ext: &str) -> (r: Option<String>)
    ensures
        match r {
            Some(t) => mime_of(ext@) == Some(t@),
            None => mime_of(ext@) is None,
        },
{
    mime_guess::from_ext(ext).first_raw().map(|t| t.to_string())
}

/// The index of the last occurrence of `c` in `s`, or minus one if `c` does
/// not occur.
pub open spec fn last_index_of(s: Seq<char>, c: char) -> int
    decreases s.len(),
{
    if s.len() == 0 {
        -1
    } else if s.last() == c {
        s.len() - 1
    } else {
        last_index_of(s.drop_last(), c)
    }
}

proof fn lemma_last_index_of(s: Seq<char>, c: char)
    ensures
        -1 <= last_index_of(s, c) < s.len(),
        last_index_of(s, c) == -1 ==> forall|j: int| 0 <= j < s.len() ==> s[j] != c,
        last_index_of(s, c) >= 0 ==> {
            &&& last_index_of(s, c) < s.len()
            &&& s[last_index_of(s, c)] == c
            &&& forall|j: int| last_index_of(s, c) < j < s.len() ==> s[j] != c
        },
    decreases s.len(),
{
    if s.len() == 0 {
    } else if s.last() == c {
        assert(last_index_of(s, c) == s.len() - 1);
    } else {
        let prefix = s.drop_last();
        lemma_last_index_of(prefix, c);
        let li = last_index_of(prefix, c);
        assert(last_index_of(s, c) == li);
        assert forall|j: int| 0 <= j < prefix.len() implies #[trigger] prefix[j] == s[j] by {
            assert(prefix[j] == s.subrange(0, s.len() - 1)[j]);
        }
        assert(s[s.len() - 1] == s.last());
        if li == -1 {
            assert forall|j: int| 0 <= j < s.len() implies s[j] != c by {
                if j < s.len() - 1 {
                    assert(prefix[j] != c);
                }
            }
        } else {
            assert(s[li] == prefix[li]);
            assert forall|j: int| li < j < s.len() implies s[j] != c by {
                if j < s.len() - 1 {
                    assert(prefix[j] != c);
                }
            }
        }
    }
}

/// The final component of `path`: everything after the last separator, or the
/// whole path when it has none.
pub open spec fn file_name_of(path: Seq<char>) -> Seq<char> {
    path.subrange(last_index_of(path, '/') + 1, path.len() as int)
}

/// The extension of `path`: what follows the last dot of its final component.
/// A component without a dot has none, and so does one whose only dot is its
/// leading character (a hidden file's name is no extension).
pub open spec fn extension_of(path: Seq<char>) -> Option<Seq<char>> {
    let name = file_name_of(path);
    let dot = last_index_of(name, '.');
    if dot <= 0 {
        None
    } else {
        Some(name.subrange(dot + 1, name.len() as int))
    }
}

/// The content type served for a file at `path`: the MIME type of its
/// lowercased extension, or none when the extension is missing or unknown.
pub open spec fn content_type_spec(path: Seq<char>) -> Option<Seq<char>> {
    match extension_of(path) {
        Some(ext) => mime_of(lower_of(ext)),
        None => None,
    }
}

/// The view of an optional owned string.
pub open spec fn opt_str_view(s: Option<String>) -> Option<Seq<char>> {
    match s {
        Some(t) => Some(t@),
        None => None,
    }
}

fn last_index_of_char(s: &str, c: char) -> (r: Option<usize>)
    ensures
        match r {
            Some(i) => last_index_of(s@, c) == i as int,
            None => last_index_of(s@, c) == -1,
        },
{
    let n = s.unicode_len();
    let mut i = n;
    while i > 0
        invariant
            n == s@.len(),
            0 <= i <= n,
            forall|j: int| i <= j < n ==> s@[j] != c,
        decreases i,
    {
        i -= 1;
        if s.get_char(i) == c {
            proof {
                lemma_last_index_of(s@, c);
            }
            return Some(i);
        }
    }
    proof {
        lemma_last_index_of(s@, c);
    }
    None
}

/// Cut the extension out of `path`, as `extension_of` describes it.
pub fn extension_of_path(path: &str) -> (r: Option<&str>)
    ensures
        match r {
            Some(e) => extension_of(path@) == Some(e@),
            None => extension_of(path@) is None,
        },
{
    let n = path.unicode_len();
    let name_start: usize = match last_index_of_char(path, '/') {
        Some(i) => {
            proof {
                lemma_last_index_of(path@, '/');
            }
            i + 1
        },
        None => 0,
    };
    let name = path.substring_char(name_start, n);
    proof {
        assert(name@ =~= file_name_of(path@));
    }
    let name_len = n - name_start;
    match last_index_of_char(name, '.') {
        None => None,
        Some(dot) => {
            if dot == 0 {
                None
            } else {
                proof {
                    lemma_last_index_of(name@, '.');
                }
                let ext = name.substring_char(dot + 1, name_len);
                proof {
                    assert(ext@ =~= extension_of(path@)->Some_0);
                }
                Some(ext)
            }
        },
    }
}

/// The content type for a file at `path`, from the static extension table.
pub fn content_type_for(path: &str) -> (r: Option<String>)
    ensures
        opt_str_view(r) == content_type_spec(path@),
{
    match extension_of_path(path) {
        None => None,
        Some(ext) => {
            let lowered = lowercase(ext);
            mime_lookup(lowered.as_str())
        },
    }
}

} // verus!
