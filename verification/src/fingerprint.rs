//! Content fingerprints: a streaming CRC-64 accumulator over a file's bytes,
//! rendered as an uppercase hexadecimal string.

use vstd::prelude::*;
use vstd::string::StrSliceExecFns;
use vstd::string::StringExecFns;

verus! {

/// What `crc::crc64::update` returns for the CRC-64-ECMA table: the checksum
/// state after folding `bytes` into the state `state`. The table-driven
/// computation itself belongs to the outside crate, so the result only has a
/// name here.
pub uninterp spec fn crc64_update_of(state: u64, bytes: Seq<u8>) -> u64;

/// The CRC-64 checksum of `bytes`: the state after folding `bytes` into the
/// zero state, which is how the accumulator starts.
pub open spec fn crc64_of(bytes: Seq<u8>) -> u64 {
    crc64_update_of(0, bytes)
}

/// Relies on `crc::crc64::update` with the ECMA table. Its source folds the
/// bytes into the state one at a time (undoing and redoing the final
/// complement between calls), so folding a concatenation equals folding its
/// parts in turn, and folding no bytes returns the state unchanged.
#[verifier::external_body]
fn crc64_step(state: u64, bytes: &[u8]) -> (r: u64)
    ensures
        r == crc64_update_of(state, bytes@),
        forall|rest: Seq<u8>| #[trigger] crc64_update_of(r, rest) == crc64_update_of(
            state,
            bytes@ + rest,
        ),
        crc64_update_of(r, Seq::<u8>::empty()) == r,
{
    crc::crc64::update(state, &crc::crc64::ECMA_TABLE, bytes)
}

/// The uppercase hexadecimal digit for a value below sixteen.
pub open spec fn hex_digit_of(d: u64) -> char {
    if d == 0 {
        '0'
    } else if d == 1 {
        '1'
    } else if d == 2 {
        '2'
    } else if d == 3 {
        '3'
    } else if d == 4 {
        '4'
    } else if d == 5 {
        '5'
    } else if d == 6 {
        '6'
    } else if d == 7 {
        '7'
    } else if d == 8 {
        '8'
    } else if d == 9 {
        '9'
    } else if d == 10 {
        'A'
    } else if d == 11 {
        'B'
    } else if d == 12 {
        'C'
    } else if d == 13 {
        'D'
    } else if d == 14 {
        'E'
    } else {
        'F'
    }
}

/// `v` written in uppercase hexadecimal, most significant digit first, with no
/// leading zeros (zero itself is the single digit `0`).
pub open spec fn hex_upper_of(v: u64) -> Seq<char>
    decreases v,
{
    if v < 16 {
        seq![hex_digit_of(v)]
    } else {
        hex_upper_of(v / 16).push(hex_digit_of(v % 16))
    }
}

/// The fingerprint of a byte content: its CRC-64 checksum in uppercase
/// hexadecimal.
pub open spec fn fingerprint_of(bytes: Seq<u8>) -> Seq<char> {
    hex_upper_of(crc64_of(bytes))
}

fn hex_digit_str(d: u64) -> (r: &'static str)
    requires
        d < 16,
    ensures
        r@ == seq![hex_digit_of(d)],
{
    if d == 0 {
        proof { reveal_strlit("0"); }
        assert("0"@ =~= seq![hex_digit_of(d)]);
        "0"
    } else if d == 1 {
        proof { reveal_strlit("1"); }
        assert("1"@ =~= seq![hex_digit_of(d)]);
        "1"
    } else if d == 2 {
        proof { reveal_strlit("2"); }
        assert("2"@ =~= seq![hex_digit_of(d)]);
        "2"
    } else if d == 3 {
        proof { reveal_strlit("3"); }
        assert("3"@ =~= seq![hex_digit_of(d)]);
        "3"
    } else if d == 4 {
        proof { reveal_strlit("4"); }
        assert("4"@ =~= seq![hex_digit_of(d)]);
        "4"
    } else if d == 5 {
        proof { reveal_strlit("5"); }
        assert("5"@ =~= seq![hex_digit_of(d)]);
        "5"
    } else if d == 6 {
        proof { reveal_strlit("6"); }
        assert("6"@ =~= seq![hex_digit_of(d)]);
        "6"
    } else if d == 7 {
        proof { reveal_strlit("7"); }
        assert("7"@ =~= seq![hex_digit_of(d)]);
        "7"
    } else if d == 8 {
        proof { reveal_strlit("8"); }
        assert("8"@ =~= seq![hex_digit_of(d)]);
        "8"
    } else if d == 9 {
        proof { reveal_strlit("9"); }
        assert("9"@ =~= seq![hex_digit_of(d)]);
        "9"
    } else if d == 10 {
        proof { reveal_strlit("A"); }
        assert("A"@ =~= seq![hex_digit_of(d)]);
        "A"
    } else if d == 11 {
        proof { reveal_strlit("B"); }
        assert("B"@ =~= seq![hex_digit_of(d)]);
        "B"
    } else if d == 12 {
        proof { reveal_strlit("C"); }
        assert("C"@ =~= seq![hex_digit_of(d)]);
        "C"
    } else if d == 13 {
        proof { reveal_strlit("D"); }
        assert("D"@ =~= seq![hex_digit_of(d)]);
        "D"
    } else if d == 14 {
        proof { reveal_strlit("E"); }
        assert("E"@ =~= seq![hex_digit_of(d)]);
        "E"
    } else {
        proof { reveal_strlit("F"); }
        assert("F"@ =~= seq![hex_digit_of(d)]);
        "F"
    }
}

/// Render `v` in uppercase hexadecimal without leading zeros.
pub fn hex_upper_string(v: u64) -> (r: String)
    ensures
        r@ == hex_upper_of(v),
    decreases v,
{
    if v < 16 {
        hex_digit_str(v).to_owned()
    } else {
        proof {
            assert(v / 16 < v) by (nonlinear_arith)
                requires
                    v >= 16,
            ;
        }
        let mut s = hex_upper_string(v / 16);
        s.append(hex_digit_str(v % 16));
        s
    }
}

/// A streaming fingerprint accumulator: bytes are fed in chunks, and the
/// fingerprint of everything fed so far can be rendered at any point.
pub struct FingerprintHasher {
    state: u64,
    processed: Ghost<Seq<u8>>,
}

impl FingerprintHasher {
    /// The bytes fed so far.
    pub closed spec fn bytes(self) -> Seq<u8> {
        self.processed@
    }

    /// The accumulator state is the checksum of the bytes fed so far, and
    /// folding any further bytes continues that checksum.
    pub closed spec fn wf(self) -> bool {
        &&& self.state == crc64_of(self.processed@)
        &&& forall|rest: Seq<u8>| #[trigger] crc64_update_of(self.state, rest) == crc64_of(
            self.processed@ + rest,
        )
    }

    /// A fresh accumulator over no bytes.
    pub fn new() -> (r: Self)
        ensures
            r.wf(),
            r.bytes() == Seq::<u8>::empty(),
    {
        let none: Vec<u8> = Vec::new();
        let state = crc64_step(0, none.as_slice());
        let r = FingerprintHasher { state, processed: Ghost(Seq::empty()) };
        proof {
            assert forall|rest: Seq<u8>| #[trigger] crc64_update_of(r.state, rest) == crc64_of(
                r.processed@ + rest,
            ) by {
                assert(Seq::<u8>::empty() + rest =~= rest);
                assert(r.processed@ + rest =~= Seq::<u8>::empty() + rest);
            }
        }
        r
    }

    /// Feed one chunk of content.
    pub fn update(&mut self, chunk: &[u8])
        requires
            old(self).wf(),
        ensures
            final(self).wf(),
            final(self).bytes() == old(self).bytes() + chunk@,
    {
        let next = crc64_step(self.state, chunk);
        self.state = next;
        self.processed = Ghost(self.processed@ + chunk@);
        proof {
            assert forall|rest: Seq<u8>| #[trigger] crc64_update_of(self.state, rest) == crc64_of(
                self.processed@ + rest,
            ) by {
                assert(crc64_update_of(next, rest) == crc64_update_of(
                    old(self).state,
                    chunk@ + rest,
                ));
                assert(crc64_update_of(old(self).state, chunk@ + rest) == crc64_of(
                    old(self).processed@ + (chunk@ + rest),
                ));
                assert(old(self).processed@ + (chunk@ + rest) =~= (old(self).processed@ + chunk@)
                    + rest);
            }
            assert(self.state == crc64_of(old(self).processed@ + chunk@));
        }
    }

    /// The fingerprint of everything fed so far.
    pub fn finish(&self) -> (r: String)
        requires
            self.wf(),
        ensures
            r@ == fingerprint_of(self.bytes()),
    {
        hex_upper_string(self.state)
    }
}

/// Determinism: the fingerprint is a function of the byte content alone, so
/// hashing the same content twice — whenever, and however often — yields an
/// identical fingerprint string.
pub proof fn lemma_fingerprint_deterministic(a: Seq<u8>, b: Seq<u8>)
    requires
        a == b,
    ensures
        fingerprint_of(a) == fingerprint_of(b),
{
}

proof fn lemma_hex_upper_len(v: u64)
    ensures
        hex_upper_of(v).len() >= 1,
    decreases v,
{
    if v >= 16 {
        lemma_hex_upper_len(v / 16);
    }
}

proof fn lemma_hex_upper_first_digit(v: u64)
    ensures
        v >= 1 ==> hex_upper_of(v)[0] != '0',
    decreases v,
{
    if v >= 16 {
        lemma_hex_upper_len(v / 16);
        lemma_hex_upper_first_digit(v / 16);
        assert(v / 16 >= 1);
    }
}

proof fn lemma_hex_upper_digits(v: u64)
    ensures
        forall|i: int|
            0 <= i < hex_upper_of(v).len() ==> is_hex_digit(#[trigger] hex_upper_of(v)[i]),
    decreases v,
{
    if v >= 16 {
        lemma_hex_upper_digits(v / 16);
        assert forall|i: int| 0 <= i < hex_upper_of(v).len() implies is_hex_digit(
            #[trigger] hex_upper_of(v)[i],
        ) by {
            if i < hex_upper_of(v).len() - 1 {
                assert(hex_upper_of(v)[i] == hex_upper_of(v / 16)[i]);
            } else {
                assert(hex_upper_of(v)[i] == hex_digit_of(v % 16));
            }
        }
    }
}

/// An uppercase hexadecimal digit.
pub open spec fn is_hex_digit(c: char) -> bool {
    (48 <= c as u32 && c as u32 <= 57) || (65 <= c as u32 && c as u32 <= 70)
}

/// The shape every fingerprint string has: at least one uppercase hexadecimal
/// digit, and no leading zero unless the string is `0` itself.
pub open spec fn is_etag_str(s: Seq<char>) -> bool {
    &&& s.len() >= 1
    &&& forall|i: int| 0 <= i < s.len() ==> is_hex_digit(#[trigger] s[i])
    &&& s.len() > 1 ==> s[0] != '0'
}

/// Every rendered fingerprint has the fingerprint shape.
pub proof fn lemma_fingerprint_is_etag_str(bytes: Seq<u8>)
    ensures
        is_etag_str(fingerprint_of(bytes)),
{
    let v = crc64_of(bytes);
    lemma_hex_upper_len(v);
    lemma_hex_upper_digits(v);
    lemma_hex_upper_first_digit(v);
    if v == 0 {
        assert(hex_upper_of(v) =~= seq![hex_digit_of(0)]);
    }
}

/// A zero-byte content still has a well-defined, non-empty fingerprint: the
/// checksum of the empty input, rendered like any other.
pub proof fn lemma_empty_fingerprint_nonempty()
    ensures
        fingerprint_of(Seq::<u8>::empty()).len() >= 1,
{
    lemma_hex_upper_len(crc64_of(Seq::<u8>::empty()));
}

/// Whether `s` has the shape of a fingerprint string.
pub fn check_etag_str(s: &String) -> (r: bool)
    ensures
        r == is_etag_str(s@),
{
    let text = s.as_str();
    let n = text.unicode_len();
    if n == 0 {
        return false;
    }
    if n > 1 && text.get_char(0) == '0' {
        assert(s@[0] == '0');
        return false;
    }
    let mut i: usize = 0;
    while i < n
        invariant
            text@ == s@,
            n == text@.len(),
            0 <= i <= n,
            forall|j: int| 0 <= j < i ==> is_hex_digit(#[trigger] text@[j]),
        decreases n - i,
    {
        let c = text.get_char(i);
        let code = c as u32;
        if !((48 <= code && code <= 57) || (65 <= code && code <= 70)) {
            assert(!is_hex_digit(s@[i as int]));
            return false;
        }
        i += 1;
    }
    true
}

/// The fingerprint of a byte content held whole in memory.
pub fn fingerprint_bytes(content: &[u8]) -> (r: String)
    ensures
        r@ == fingerprint_of(content@),
{
    let mut hasher = FingerprintHasher::new();
    hasher.update(content);
    let r = hasher.finish();
    proof {
        assert(Seq::<u8>::empty() + content@ =~= content@);
    }
    r
}

} // verus!
