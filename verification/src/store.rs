//! The fingerprint store: a mapping from canonical file path to cached
//! fingerprint, and a lock-guarded shared form of it for concurrent request
//! handlers.

use vstd::prelude::*;
use vstd::rwlock::RwLock;
use vstd::rwlock::RwLockPredicate;

use crate::fingerprint::check_etag_str;
use crate::fingerprint::is_etag_str;

verus! {

/// The mapping a sequence of path/fingerprint entries stands for: later
/// entries shadow earlier ones (the store never adds two entries for one
/// path, so nothing is ever shadowed in fact).
pub open spec fn map_of_entries(entries: Seq<(String, String)>) -> Map<Seq<char>, Seq<char>>
    decreases entries.len(),
{
    if entries.len() == 0 {
        Map::empty()
    } else {
        map_of_entries(entries.drop_last()).insert(entries.last().0@, entries.last().1@)
    }
}

/// What the cache holds after an insert-if-absent: an already cached path
/// keeps its fingerprint, an absent one gains the given fingerprint.
pub open spec fn cache_after_insert(
    m: Map<Seq<char>, Seq<char>>,
    path: Seq<char>,
    fingerprint: Seq<char>,
) -> Map<Seq<char>, Seq<char>> {
    if m.contains_key(path) {
        m
    } else {
        m.insert(path, fingerprint)
    }
}

/// Cache consistency: once a path has a cached fingerprint, a later insert for
/// that path changes nothing — lookups keep returning the first fingerprint,
/// whatever is offered afterwards.
pub proof fn lemma_cache_consistency(
    m: Map<Seq<char>, Seq<char>>,
    path: Seq<char>,
    cached: Seq<char>,
    newer: Seq<char>,
)
    requires
        m.contains_key(path),
        m[path] == cached,
    ensures
        cache_after_insert(m, path, newer) == m,
        cache_after_insert(m, path, newer)[path] == cached,
{
}

/// Independence of distinct paths: inserting a fingerprint for one path
/// neither adds, removes nor changes the entry of any other path, so
/// concurrent lookups for distinct paths cannot contaminate each other.
pub proof fn lemma_distinct_paths_independent(
    m: Map<Seq<char>, Seq<char>>,
    path: Seq<char>,
    fingerprint: Seq<char>,
    other: Seq<char>,
)
    requires
        path != other,
    ensures
        cache_after_insert(m, path, fingerprint).contains_key(other) == m.contains_key(other),
        m.contains_key(other) ==> cache_after_insert(m, path, fingerprint)[other] == m[other],
{
}

/// A mapping from canonical file path to fingerprint with insert-if-absent
/// semantics: at most one fingerprint per path, never evicted, never changed.
pub struct FingerprintStore {
    entries: Vec<(String, String)>,
}

proof fn lemma_map_of_entries(entries: Seq<(String, String)>)
    ensures
        forall|k: Seq<char>|
            #[trigger] map_of_entries(entries).contains_key(k) <==> exists|i: int|
                0 <= i < entries.len() && (#[trigger] entries[i]).0@ == k,
        forall|i: int|
            0 <= i < entries.len() && (forall|j: int|
                i < j < entries.len() ==> (#[trigger] entries[j]).0@ != entries[i].0@)
                ==> map_of_entries(entries)[(#[trigger] entries[i]).0@] == entries[i].1@,
    decreases entries.len(),
{
    if entries.len() > 0 {
        let prefix = entries.drop_last();
        lemma_map_of_entries(prefix);
        assert forall|k: Seq<char>| #[trigger]
            map_of_entries(entries).contains_key(k) implies exists|i: int|
            0 <= i < entries.len() && (#[trigger] entries[i]).0@ == k by {
            if k == entries.last().0@ {
                assert(0 <= entries.len() - 1 < entries.len() && entries[entries.len() - 1].0@
                    == k);
            } else {
                assert(map_of_entries(prefix).contains_key(k));
                assert(exists|i: int| 0 <= i < prefix.len() && (#[trigger] prefix[i]).0@ == k);
                let i = choose|i: int| 0 <= i < prefix.len() && (#[trigger] prefix[i]).0@ == k;
                assert(0 <= i < entries.len());
                assert(entries[i] == prefix[i]);
                assert(entries[i].0@ == k);
            }
        }
        assert forall|k: Seq<char>|
            (exists|i: int| 0 <= i < entries.len() && (#[trigger] entries[i]).0@ == k) implies
            #[trigger] map_of_entries(entries).contains_key(k) by {
            let i = choose|i: int| 0 <= i < entries.len() && (#[trigger] entries[i]).0@ == k;
            if i < entries.len() - 1 {
                assert(prefix[i].0@ == k);
                assert(exists|j: int| 0 <= j < prefix.len() && (#[trigger] prefix[j]).0@ == k);
                assert(map_of_entries(prefix).contains_key(k));
            } else {
                assert(entries.last().0@ == k);
            }
        }
        assert forall|i: int|
            0 <= i < entries.len() && (forall|j: int|
                i < j < entries.len() ==> (#[trigger] entries[j]).0@ != entries[i].0@) implies
            map_of_entries(entries)[(#[trigger] entries[i]).0@] == entries[i].1@ by {
            if i == entries.len() - 1 {
                assert(map_of_entries(entries)[entries.last().0@] == entries.last().1@);
            } else {
                assert(entries[i].0@ != entries.last().0@);
                assert(prefix[i].0@ == entries[i].0@ && prefix[i].1@ == entries[i].1@);
                assert(forall|j: int|
                    i < j < prefix.len() ==> (#[trigger] prefix[j]).0@ != prefix[i].0@);
                assert(map_of_entries(prefix)[prefix[i].0@] == prefix[i].1@);
            }
        }
    }
}

impl FingerprintStore {
    /// Each path occurs in at most one entry, and every stored fingerprint
    /// has the fingerprint shape.
    pub closed spec fn wf(&self) -> bool {
        &&& forall|i: int, j: int|
            0 <= i < j < self.entries@.len() ==> (#[trigger] self.entries@[i]).0@
                != (#[trigger] self.entries@[j]).0@
        &&& forall|i: int|
            0 <= i < self.entries@.len() ==> is_etag_str((#[trigger] self.entries@[i]).1@)
    }

    /// An empty store.
    pub fn new() -> (r: Self)
        ensures
            r.wf(),
            r@ == Map::<Seq<char>, Seq<char>>::empty(),
    {
        FingerprintStore { entries: Vec::new() }
    }

    /// The cached fingerprint of `path`, if one was ever stored.
    pub fn get(&self, path: &String) -> (r: Option<String>)
        requires
            self.wf(),
        ensures
            match r {
                Some(fp) => self@.contains_key(path@) && self@[path@] == fp@ && is_etag_str(fp@),
                None => !self@.contains_key(path@),
            },
    {
        let n = self.entries.len();
        let mut i: usize = 0;
        while i < n
            invariant
                self.wf(),
                n == self.entries@.len(),
                0 <= i <= n,
                forall|j: int| 0 <= j < i ==> (#[trigger] self.entries@[j]).0@ != path@,
            decreases n - i,
        {
            if self.entries[i].0 == *path {
                proof {
                    lemma_map_of_entries(self.entries@);
                    assert(forall|j: int|
                        i < j < self.entries@.len() ==> (#[trigger] self.entries@[j]).0@
                            != self.entries@[i as int].0@);
                }
                return Some(self.entries[i].1.clone());
            }
            i += 1;
        }
        proof {
            lemma_map_of_entries(self.entries@);
        }
        None
    }

    /// Cache `fingerprint` under `path` unless `path` already has one; an
    /// existing entry is never replaced.
    pub fn insert_if_absent(&mut self, path: &String, fingerprint: String)
        requires
            old(self).wf(),
            is_etag_str(fingerprint@),
        ensures
            final(self).wf(),
            final(self)@ == cache_after_insert(old(self)@, path@, fingerprint@),
    {
        let cached = self.get(path);
        match cached {
            Some(_) => {},
            None => {
                proof {
                    lemma_map_of_entries(self.entries@);
                }
                let ghost before = self.entries@;
                self.entries.push((path.clone(), fingerprint));
                proof {
                    assert(self.entries@.drop_last() =~= before);
                    assert(map_of_entries(self.entries@) == map_of_entries(before).insert(
                        path@,
                        fingerprint@,
                    ));
                    assert forall|i: int, j: int|
                        0 <= i < j < self.entries@.len() implies (
                    #[trigger] self.entries@[i]).0@ != (#[trigger] self.entries@[j]).0@ by {
                        if j == self.entries@.len() - 1 {
                            assert(self.entries@[i].0@ != path@);
                        }
                    }
                }
            },
        }
    }
}

impl View for FingerprintStore {
    type V = Map<Seq<char>, Seq<char>>;

    /// The mapping the store holds.
    closed spec fn view(&self) -> Map<Seq<char>, Seq<char>> {
        map_of_entries(self.entries@)
    }
}

/// The invariant the shared lock maintains: the store inside is well formed.
pub struct EtagMapPred {}

impl RwLockPredicate<FingerprintStore> for EtagMapPred {
    open spec fn inv(self, v: FingerprintStore) -> bool {
        v.wf()
    }
}

/// The process-wide fingerprint cache: a fingerprint store behind a
/// reader-writer lock, shared by every concurrent request handler. The lock
/// is held only for the duration of one lookup or one insert, never while a
/// file is read.
pub struct EtagMap {
    lock: RwLock<FingerprintStore, EtagMapPred>,
}

impl EtagMap {
    /// A fresh, empty cache.
    pub fn new() -> (r: Self) {
        EtagMap { lock: RwLock::new(FingerprintStore::new(), Ghost(EtagMapPred {})) }
    }

    /// The cached fingerprint of `path`, if this cache ever committed one.
    /// Whatever comes back was stored whole: a reader never observes a
    /// partially written entry, and every returned string has the
    /// fingerprint shape.
    pub fn lookup(&self, path: &String) -> (r: Option<String>)
        ensures
            r matches Some(fp) ==> is_etag_str(fp@),
    {
        let handle = self.lock.acquire_read();
        let r = handle.borrow().get(path);
        handle.release_read();
        r
    }

    /// Cache `fingerprint` under `path` unless `path` already has an entry;
    /// an existing fingerprint is never replaced. Returns whether the string
    /// had the fingerprint shape the store admits (every rendered fingerprint
    /// does).
    pub fn store(&self, path: &String, fingerprint: String) -> (stored: bool)
        ensures
            stored == is_etag_str(fingerprint@),
    {
        let well_formed = check_etag_str(&fingerprint);
        if well_formed {
            let (mut inner, handle) = self.lock.acquire_write();
            inner.insert_if_absent(path, fingerprint);
            handle.release_write(inner);
        }
        well_formed
    }
}

} // verus!
