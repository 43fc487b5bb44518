use vstd::prelude::*;
use vstd::string::{StringExecFns, StrSliceExecFns};
use vstd::utf8::{valid_utf8, decode_utf8};
use crate::assoc::{
    lookup_str, lookup_u128, lemma_lookup_str_skip, lemma_lookup_u128_skip, lemma_lookup_str_push,
    lemma_lookup_u128_push, lemma_lookup_u128_some,
};
use crate::error::FsError;
use crate::ident::FileMeta;
use crate::text::{str_eq, clone_bytes};
use same_file::Handle;
use std::io::Read;

verus! {

/// A decoded source file: its dense id in the source store, the path it was
/// loaded from, and its text.
pub struct Source {
    pub id: usize,
    pub path: String,
    pub text: String,
}

/// The file-identity cache. It maps path strings to canonical identity
/// tokens, memoizes at most one decoded source and one raw byte buffer per
/// identity, and owns the append-only source store. All three maps are only
/// ever grown, and are cleared wholesale by `reset` at the start of each
/// compilation cycle. `loads` counts the file reads consumed so far; it is
/// never reset, so the cost of a span of calls is visible as its difference.
pub struct Cache {
    hashes: Vec<(String, Result<u128, FsError>)>,
    slot_sources: Vec<(u128, Result<usize, FsError>)>,
    slot_buffers: Vec<(u128, Result<Vec<u8>, FsError>)>,
    sources: Vec<Source>,
    loads: u64,
}

impl Cache {
    /// The identity outcome recorded under a path key, if any.
    pub closed spec fn hash_of(self, path: Seq<char>) -> Option<Result<u128, FsError>> {
        lookup_str(self.hashes@, path)
    }

    /// The memoized source outcome of an identity, if any.
    pub closed spec fn source_state(self, ident: u128) -> Option<Result<usize, FsError>> {
        lookup_u128(self.slot_sources@, ident)
    }

    /// The memoized raw-byte outcome of an identity, if any.
    pub closed spec fn buffer_state(self, ident: u128) -> Option<Result<Seq<u8>, FsError>> {
        match lookup_u128(self.slot_buffers@, ident) {
            Some(Ok(v)) => Some(Ok(v@)),
            Some(Err(e)) => Some(Err(e)),
            None => None,
        }
    }

    /// True if the identity has any memoized content at all.
    pub open spec fn slot_known(self, ident: u128) -> bool {
        self.source_state(ident) is Some || self.buffer_state(ident) is Some
    }

    /// How many sources the store holds.
    pub closed spec fn source_count(self) -> nat {
        self.sources@.len()
    }

    /// The path and text of the stored source with the given id.
    pub closed spec fn source_at(self, id: int) -> (Seq<char>, Seq<char>) {
        (self.sources@[id].path@, self.sources@[id].text@)
    }

    /// How many file reads this cache has consumed since it was created.
    pub closed spec fn load_count(self) -> u64 {
        self.loads
    }

    /// True right after construction or `reset`: no path, no slot, no source
    /// is remembered.
    pub closed spec fn is_reset(self) -> bool {
        self.hashes@.len() == 0 && self.slot_sources@.len() == 0 && self.slot_buffers@.len() == 0
            && self.sources@.len() == 0
    }

    /// Internal consistency: stored sources carry their own index as id, and
    /// every memoized source id points into the store.
    pub closed spec fn wf(self) -> bool {
        &&& forall|i: int|
            0 <= i < self.sources@.len() ==> (#[trigger] self.sources@[i]).id == i
        &&& forall|i: int|
            0 <= i < self.slot_sources@.len() ==> ((#[trigger] self.slot_sources@[i]).1 matches Ok(
                id,
            ) ==> id < self.sources@.len())
    }

    /// The end-to-end memo state of a path: what a source lookup of it would
    /// be answered with, without touching the filesystem.
    pub open spec fn source_lookup(self, path: Seq<char>) -> Option<Result<usize, FsError>> {
        match self.hash_of(path) {
            None => None,
            Some(Err(e)) => Some(Err(e)),
            Some(Ok(h)) => self.source_state(h),
        }
    }

    /// The end-to-end memo state of a path for raw bytes.
    pub open spec fn buffer_lookup(self, path: Seq<char>) -> Option<Result<Seq<u8>, FsError>> {
        match self.hash_of(path) {
            None => None,
            Some(Err(e)) => Some(Err(e)),
            Some(Ok(h)) => self.buffer_state(h),
        }
    }

    /// Create an empty cache.
    pub fn new() -> (c: Cache)
        ensures
            c.wf(),
            c.is_reset(),
            c.load_count() == 0,
            c.source_count() == 0,
            forall|p: Seq<char>| c.hash_of(p) is None,
            forall|h: u128| c.source_state(h) is None && c.buffer_state(h) is None,
    {
        Cache {
            hashes: Vec::new(),
            slot_sources: Vec::new(),
            slot_buffers: Vec::new(),
            sources: Vec::new(),
            loads: 0,
        }
    }

    /// Clear the path map, all slots and the source store. Every path and
    /// every identity is forgotten, so the next lookup of any file reads it
    /// freshly from disk; the cumulative read counter is kept.
    pub fn reset(&mut self)
        ensures
            final (self).wf(),
            final (self).is_reset(),
            final (self).load_count() == old(self).load_count(),
            final (self).source_count() == 0,
            forall|p: Seq<char>| final (self).hash_of(p) is None,
            forall|h: u128|
                final (self).source_state(h) is None && final (self).buffer_state(h) is None,
    {
        self.hashes = Vec::new();
        self.slot_sources = Vec::new();
        self.slot_buffers = Vec::new();
        self.sources = Vec::new();
    }

    /// Scan the path map for a key equal to `path`.
    fn find_hash(&self, path: &str) -> (r: Option<Result<u128, FsError>>)
        ensures
            r == self.hash_of(path@),
    {
        let n = self.hashes.len();
        let mut i: usize = 0;
        while i < n
            invariant
                i <= n,
                n == self.hashes@.len(),
                forall|j: int| 0 <= j < i ==> (#[trigger] self.hashes@[j]).0@ != path@,
            decreases n - i,
        {
            if str_eq(self.hashes[i].0.as_str(), path) {
                proof {
                    lemma_lookup_str_skip(self.hashes@, path@, i as int);
                    assert(self.hashes@.skip(i as int)[0] == self.hashes@[i as int]);
                }
                return Some(self.hashes[i].1);
            }
            i += 1;
        }
        proof {
            lemma_lookup_str_skip(self.hashes@, path@, n as int);
            assert(self.hashes@.skip(n as int) =~= Seq::<(String, Result<u128, FsError>)>::empty());
        }
        None
    }

    /// Scan the source slots for an identity.
    fn find_slot_source(&self, ident: u128) -> (r: Option<Result<usize, FsError>>)
        ensures
            r == self.source_state(ident),
    {
        let n = self.slot_sources.len();
        let mut i: usize = 0;
        while i < n
            invariant
                i <= n,
                n == self.slot_sources@.len(),
                forall|j: int| 0 <= j < i ==> (#[trigger] self.slot_sources@[j]).0 != ident,
            decreases n - i,
        {
            if self.slot_sources[i].0 == ident {
                proof {
                    lemma_lookup_u128_skip(self.slot_sources@, ident, i as int);
                    assert(self.slot_sources@.skip(i as int)[0] == self.slot_sources@[i as int]);
                }
                return Some(self.slot_sources[i].1);
            }
            i += 1;
        }
        proof {
            lemma_lookup_u128_skip(self.slot_sources@, ident, n as int);
            assert(self.slot_sources@.skip(n as int) =~= Seq::<
                (u128, Result<usize, FsError>),
            >::empty());
        }
        None
    }

    /// Scan the byte slots for an identity, returning its index.
    fn find_slot_buffer(&self, ident: u128) -> (r: Option<usize>)
        ensures
            match r {
                Some(i) => i < self.slot_buffers@.len() && self.slot_buffers@[i as int].0 == ident
                    && lookup_u128(self.slot_buffers@, ident) == Some(
                    self.slot_buffers@[i as int].1,
                ),
                None => lookup_u128(self.slot_buffers@, ident) is None,
            },
    {
        let n = self.slot_buffers.len();
        let mut i: usize = 0;
        while i < n
            invariant
                i <= n,
                n == self.slot_buffers@.len(),
                forall|j: int| 0 <= j < i ==> (#[trigger] self.slot_buffers@[j]).0 != ident,
            decreases n - i,
        {
            if self.slot_buffers[i].0 == ident {
                proof {
                    lemma_lookup_u128_skip(self.slot_buffers@, ident, i as int);
                    assert(self.slot_buffers@.skip(i as int)[0] == self.slot_buffers@[i as int]);
                }
                return Some(i);
            }
            i += 1;
        }
        proof {
            lemma_lookup_u128_skip(self.slot_buffers@, ident, n as int);
            assert(self.slot_buffers@.skip(n as int) =~= Seq::<
                (u128, Result<Vec<u8>, FsError>),
            >::empty());
        }
        None
    }

    /// Record a freshly resolved identity outcome for a path: under the path
    /// as given and, where one was obtained, under its canonicalized
    /// spelling, so later filesystem events reported under either spelling
    /// find it. A key that is already present is never updated in place: an
    /// identity recorded earlier in the cycle stays authoritative. Every key
    /// this call adds maps to the given outcome.
    pub fn admit_identity(
        &mut self,
        path: &str,
        canon: Option<String>,
        outcome: Result<u128, FsError>,
    ) -> (r: Result<u128, FsError>)
        requires
            old(self).wf(),
            old(self).hash_of(path@) is None,
        ensures
            final (self).wf(),
            r == outcome,
            final (self).hash_of(path@) == Some(outcome),
            canon matches Some(c) ==> final (self).hash_of(c@) == (if old(self).hash_of(c@)
                is Some {
                old(self).hash_of(c@)
            } else {
                Some(outcome)
            }),
            forall|p: Seq<char>|
                old(self).hash_of(p) is Some ==> final (self).hash_of(p) == old(self).hash_of(p),
            forall|p: Seq<char>|
                old(self).hash_of(p) is None && final (self).hash_of(p) is Some ==> final (self).hash_of(p) == Some(outcome),
            final (self).load_count() == old(self).load_count(),
            final (self).source_count() == old(self).source_count(),
            forall|i: int|
                0 <= i < old(self).source_count() ==> final (self).source_at(i) == old(
                    self,
                ).source_at(i),
            forall|h: u128| final (self).source_state(h) == old(self).source_state(h),
            forall|h: u128| final (self).buffer_state(h) == old(self).buffer_state(h),
    {
        if let Some(canon) = canon {
            if self.find_hash(canon.as_str()).is_none() {
                proof {
                    lemma_lookup_str_push(self.hashes@, canon, outcome);
                }
                self.hashes.push((canon, outcome));
            }
        }
        if self.find_hash(path).is_none() {
            let key = String::from_str(path);
            proof {
                lemma_lookup_str_push(self.hashes@, key, outcome);
            }
            self.hashes.push((key, outcome));
        }
        outcome
    }

    /// Resolve a path to its canonical identity token: memoized per path
    /// string, and recorded under both the path as given and its absolute
    /// canonicalized form (see `admit_identity`). A failure to stat is
    /// memoized just like a success, and every key a call adds maps to the
    /// result it returns.
    pub fn resolve(&mut self, path: &str) -> (r: Result<u128, FsError>)
        requires
            old(self).wf(),
        ensures
            final (self).wf(),
            final (self).hash_of(path@) == Some(r),
            old(self).hash_of(path@) matches Some(r0) ==> r == r0 && *final (self) == *old(self),
            forall|p: Seq<char>|
                old(self).hash_of(p) is None && final (self).hash_of(p) is Some ==> final (self).hash_of(p) == Some(r),
            final (self).load_count() == old(self).load_count(),
            final (self).source_count() == old(self).source_count(),
            forall|i: int|
                0 <= i < old(self).source_count() ==> final (self).source_at(i) == old(
                    self,
                ).source_at(i),
            forall|p: Seq<char>|
                old(self).hash_of(p) is Some ==> final (self).hash_of(p) == old(self).hash_of(p),
            forall|h: u128| final (self).source_state(h) == old(self).source_state(h),
            forall|h: u128| final (self).buffer_state(h) == old(self).buffer_state(h),
    {
        if let Some(r) = self.find_hash(path) {
            return r;
        }
        let meta = stat_meta(path);
        let outcome: Result<u128, FsError> = match meta {
            Ok(m) => Ok(m.identity()),
            Err(e) => Err(e),
        };
        let canon = canonical_of(path);
        self.admit_identity(path, canon, outcome)
    }

    /// Record the outcome of reading and decoding a file for an identity
    /// whose source slot is still empty; for an identity whose slot is
    /// already filled, the memoized outcome is returned and the given data is
    /// ignored. A fresh recording consumes exactly one read: valid text is
    /// appended to the source store under the next dense id, bytes that are
    /// not valid text are memoized as `InvalidEncoding`, and a failed read is
    /// memoized as its error.
    pub fn admit_source(&mut self, ident: u128, path: &str, data: Result<Vec<u8>, FsError>) -> (r:
        Result<usize, FsError>)
        requires
            old(self).wf(),
            old(self).load_count() < u64::MAX,
            old(self).source_count() < usize::MAX,
        ensures
            final (self).wf(),
            final (self).source_state(ident) == Some(r),
            old(self).source_state(ident) matches Some(r0) ==> r == r0 && *final (self) == *old(
                self,
            ),
            old(self).source_state(ident) is None ==> final (self).load_count() == old(
                self,
            ).load_count() + 1,
            old(self).source_state(ident) is None ==> (data matches Ok(b) ==> (valid_utf8(b@) ==> (
            r == Ok::<usize, FsError>(old(self).source_count() as usize) && final (self).source_count() == old(
                self,
            ).source_count() + 1 && final (self).source_at(old(self).source_count() as int) == (
                path@,
                decode_utf8(b@),
            )))),
            old(self).source_state(ident) is None ==> (data matches Ok(b) ==> (!valid_utf8(b@)
                ==> r == Err::<usize, FsError>(FsError::InvalidEncoding) && final (self).source_count() == old(
                self,
            ).source_count())),
            old(self).source_state(ident) is None ==> (data matches Err(e) ==> r == Err::<usize, FsError>(e)
                && final (self).source_count() == old(self).source_count()),
            forall|p: Seq<char>| final (self).hash_of(p) == old(self).hash_of(p),
            forall|h: u128|
                h != ident ==> final (self).source_state(h) == old(self).source_state(h),
            forall|h: u128| final (self).buffer_state(h) == old(self).buffer_state(h),
            forall|i: int|
                0 <= i < old(self).source_count() ==> final (self).source_at(i) == old(
                    self,
                ).source_at(i),
            old(self).source_count() <= final (self).source_count() <= old(self).source_count()
                + 1,
    {
        if let Some(r) = self.find_slot_source(ident) {
            return r;
        }
        let res: Result<usize, FsError> = match data {
            Ok(bytes) => match utf8_decode(bytes) {
                Some(text) => {
                    let id = self.sources.len();
                    self.sources.push(Source { id, path: String::from_str(path), text });
                    Ok(id)
                },
                None => Err(FsError::InvalidEncoding),
            },
            Err(e) => Err(e),
        };
        self.loads = self.loads + 1;
        proof {
            lemma_lookup_u128_push(self.slot_sources@, ident, res);
        }
        self.slot_sources.push((ident, res));
        res
    }

    /// Resolve a path and return its decoded source id, reading and decoding
    /// the file at most once per cache generation: a second lookup of a path
    /// (or of another path with the same canonical identity) is answered from
    /// the memo without touching the filesystem, and leaves the cache
    /// unchanged. On a cache that was just reset, a lookup whose identity
    /// resolution succeeds consumes exactly one fresh read.
    pub fn get_or_load_source(&mut self, path: &str) -> (r: Result<usize, FsError>)
        requires
            old(self).wf(),
            old(self).load_count() < u64::MAX,
            old(self).source_count() < usize::MAX,
        ensures
            final (self).wf(),
            final (self).source_lookup(path@) == Some(r),
            old(self).source_lookup(path@) matches Some(r0) ==> r == r0 && *final (self) == *old(
                self,
            ),
            final (self).load_count() <= old(self).load_count() + 1,
            old(self).source_lookup(path@) is Some ==> final (self).load_count() == old(
                self,
            ).load_count(),
            r matches Ok(id) ==> id < final (self).source_count(),
            r matches Err(_) ==> final (self).source_count() == old(self).source_count(),
            old(self).is_reset() ==> (final (self).hash_of(path@) matches Some(Ok(_)) ==> final (self).load_count() == old(self).load_count() + 1),
            final (self).hash_of(path@) matches Some(Ok(h)) ==> (old(self).source_state(h) matches Some(r0) ==> r == r0 && final (self).load_count() == old(self).load_count() && final (self).source_count() == old(self).source_count()),
            forall|p: Seq<char>|
                old(self).hash_of(p) is Some ==> final (self).hash_of(p) == old(self).hash_of(p),
            forall|h: u128|
                old(self).source_state(h) is Some ==> final (self).source_state(h) == old(
                    self,
                ).source_state(h),
            forall|h: u128| final (self).buffer_state(h) == old(self).buffer_state(h),
            old(self).source_count() <= final (self).source_count() <= old(self).source_count()
                + 1,
            forall|i: int|
                0 <= i < old(self).source_count() ==> final (self).source_at(i) == old(
                    self,
                ).source_at(i),
    {
        let ident_res = self.resolve(path);
        let ident = match ident_res {
            Ok(h) => h,
            Err(e) => {
                return Err(e);
            },
        };
        if let Some(r) = self.find_slot_source(ident) {
            proof {
                match r {
                    Ok(id) => {
                        lemma_lookup_u128_some(
                            self.slot_sources@,
                            ident,
                            Ok::<usize, FsError>(id),
                        );
                        let i = choose|i: int|
                            0 <= i < self.slot_sources@.len() && #[trigger] self.slot_sources@[i]
                                == (ident, Ok::<usize, FsError>(id));
                        assert(self.slot_sources@[i].1 == Ok::<usize, FsError>(id));
                    },
                    Err(_) => {},
                }
            }
            return r;
        }
        let data = read_file(path);
        self.admit_source(ident, path, data)
    }

    /// Record the outcome of reading a file's raw bytes for an identity whose
    /// byte slot is still empty; for an identity whose slot is already
    /// filled, the memoized outcome is returned and the given data is
    /// ignored. A fresh recording consumes exactly one read and memoizes the
    /// outcome, success or failure.
    pub fn admit_bytes(&mut self, ident: u128, data: Result<Vec<u8>, FsError>) -> (r: Result<
        Vec<u8>,
        FsError,
    >)
        requires
            old(self).wf(),
            old(self).load_count() < u64::MAX,
        ensures
            final (self).wf(),
            final (self).buffer_state(ident) == Some(result_bytes_view(r)),
            old(self).buffer_state(ident) matches Some(r0) ==> result_bytes_view(r) == r0
                && *final (self) == *old(self),
            old(self).buffer_state(ident) is None ==> final (self).load_count() == old(
                self,
            ).load_count() + 1 && result_bytes_view(r) == result_bytes_view(data),
            forall|p: Seq<char>| final (self).hash_of(p) == old(self).hash_of(p),
            forall|h: u128| final (self).source_state(h) == old(self).source_state(h),
            forall|h: u128|
                h != ident ==> final (self).buffer_state(h) == old(self).buffer_state(h),
            final (self).source_count() == old(self).source_count(),
            forall|i: int|
                0 <= i < old(self).source_count() ==> final (self).source_at(i) == old(
                    self,
                ).source_at(i),
    {
        if let Some(i) = self.find_slot_buffer(ident) {
            let r: Result<Vec<u8>, FsError> = match &self.slot_buffers[i].1 {
                Ok(b) => Ok(clone_bytes(b)),
                Err(e) => Err(*e),
            };
            return r;
        }
        let stored: Result<Vec<u8>, FsError> = match &data {
            Ok(b) => Ok(clone_bytes(b)),
            Err(e) => Err(*e),
        };
        proof {
            lemma_lookup_u128_push(self.slot_buffers@, ident, stored);
        }
        self.loads = self.loads + 1;
        self.slot_buffers.push((ident, stored));
        data
    }

    /// Resolve a path and return the file's raw bytes, reading the file at
    /// most once per cache generation, independently of the source slot.
    pub fn get_or_load_bytes(&mut self, path: &str) -> (r: Result<Vec<u8>, FsError>)
        requires
            old(self).wf(),
            old(self).load_count() < u64::MAX,
        ensures
            final (self).wf(),
            final (self).buffer_lookup(path@) == Some(result_bytes_view(r)),
            old(self).buffer_lookup(path@) matches Some(r0) ==> result_bytes_view(r) == r0
                && *final (self) == *old(self),
            final (self).load_count() <= old(self).load_count() + 1,
            old(self).buffer_lookup(path@) is Some ==> final (self).load_count() == old(
                self,
            ).load_count(),
            final (self).hash_of(path@) matches Some(Ok(h)) ==> (old(self).buffer_state(h) matches Some(r0) ==> result_bytes_view(r) == r0 && final (self).load_count() == old(self).load_count()),
            forall|p: Seq<char>|
                old(self).hash_of(p) is Some ==> final (self).hash_of(p) == old(self).hash_of(p),
            forall|h: u128| final (self).source_state(h) == old(self).source_state(h),
            forall|h: u128|
                old(self).buffer_state(h) is Some ==> final (self).buffer_state(h) == old(
                    self,
                ).buffer_state(h),
            final (self).source_count() == old(self).source_count(),
            forall|i: int|
                0 <= i < old(self).source_count() ==> final (self).source_at(i) == old(
                    self,
                ).source_at(i),
    {
        let ident_res = self.resolve(path);
        let ident = match ident_res {
            Ok(h) => h,
            Err(e) => {
                return Err(e);
            },
        };
        let cached = self.find_slot_buffer(ident);
        if let Some(i) = cached {
            let r: Result<Vec<u8>, FsError> = match &self.slot_buffers[i].1 {
                Ok(b) => Ok(clone_bytes(b)),
                Err(e) => Err(*e),
            };
            return r;
        }
        let data = read_file(path);
        self.admit_bytes(ident, data)
    }

    /// Direct indexed lookup into the source store. The id must stem from
    /// this cache generation: ids never survive a `reset`.
    pub fn source_by_id(&self, id: usize) -> (r: &Source)
        requires
            self.wf(),
            id < self.source_count(),
        ensures
            r.id == id,
            (r.path@, r.text@) == self.source_at(id as int),
    {
        &self.sources[id]
    }

    /// The identity outcome recorded under a path key, if any. The key is
    /// compared exactly as given; no normalization is applied here.
    pub fn lookup_path(&self, path: &str) -> (r: Option<Result<u128, FsError>>)
        ensures
            r == self.hash_of(path@),
    {
        self.find_hash(path)
    }

    /// True if the identity has any memoized content at all.
    pub fn slot_is_known(&self, ident: u128) -> (r: bool)
        ensures
            r == self.slot_known(ident),
    {
        if self.find_slot_source(ident).is_some() {
            return true;
        }
        self.find_slot_buffer(ident).is_some()
    }

    /// How many sources the store holds.
    pub fn source_len(&self) -> (r: usize)
        ensures
            r as nat == self.source_count(),
    {
        self.sources.len()
    }

    /// How many file reads this cache has consumed since it was created.
    pub fn loads(&self) -> (r: u64)
        ensures
            r == self.load_count(),
    {
        self.loads
    }
}

/// The view of a read outcome: the bytes it carries, or its error.
pub open spec fn result_bytes_view(r: Result<Vec<u8>, FsError>) -> Result<Seq<u8>, FsError> {
    match r {
        Ok(v) => Ok(v@),
        Err(e) => Err(e),
    }
}

/// Two path strings recorded with the same identity token share one cached
/// entity: a source or byte lookup of either is answered the same, however
/// differently the two paths are spelled.
pub proof fn lemma_same_identity_shares_slot(c: Cache, p1: Seq<char>, p2: Seq<char>, h: u128)
    requires
        c.hash_of(p1) == Some(Ok::<u128, FsError>(h)),
        c.hash_of(p2) == Some(Ok::<u128, FsError>(h)),
    ensures
        c.source_lookup(p1) == c.source_lookup(p2),
        c.buffer_lookup(p1) == c.buffer_lookup(p2),
{
}

/// Relies on `same_file::Handle::from_path`: opens the path and reports the
/// device and inode numbers of the underlying file, so that all links to one
/// file agree. The outcome depends on the state of the filesystem, so nothing
/// is promised of it.
#[verifier::external_body]
fn stat_meta(path: &str) -> Result<FileMeta, FsError> {
    match Handle::from_path(path) {
        Ok(h) => Ok(FileMeta { dev: h.dev(), ino: h.ino() }),
        Err(e) => Err(match e.kind() {
            std::io::ErrorKind::NotFound => FsError::NotFound,
            std::io::ErrorKind::PermissionDenied => FsError::PermissionDenied,
            _ => FsError::Other,
        }),
    }
}

/// Relies on `std::path::Path::canonicalize`: yields the absolute path with
/// symbolic links and relative components resolved, or nothing when the path
/// cannot be canonicalized or is not valid text. The outcome depends on the
/// state of the filesystem, so nothing is promised of it.
#[verifier::external_body]
fn canonical_of(path: &str) -> Option<String> {
    match std::path::Path::new(path).canonicalize() {
        Ok(p) => match p.to_str() {
            Some(s) => Some(s.to_string()),
            None => None,
        },
        Err(_) => None,
    }
}

/// Relies on `same_file::Handle::from_path` to open the file and on
/// `std::io::Read::read_to_end` to read its bytes; a directory is rejected.
/// The outcome depends on the state of the filesystem, so nothing is promised
/// of it.
#[verifier::external_body]
fn read_file(path: &str) -> Result<Vec<u8>, FsError> {
    let opened = Handle::from_path(path).map_err(|e| match e.kind() {
        std::io::ErrorKind::NotFound => FsError::NotFound,
        std::io::ErrorKind::PermissionDenied => FsError::PermissionDenied,
        _ => FsError::Other,
    });
    let mut handle = match opened {
        Ok(h) => h,
        Err(e) => return Err(e),
    };
    if handle.as_file().metadata().map(|m| m.is_dir()).unwrap_or(false) {
        return Err(FsError::IsDirectory);
    }
    let mut buf = Vec::new();
    handle.as_file_mut().read_to_end(&mut buf).map_err(|_| FsError::Other).map(|_| buf)
}

/// Relies on `String::from_utf8`: succeeds exactly on valid UTF-8 input and
/// decodes it; the result depends on the bytes alone.
#[verifier::external_body]
fn utf8_decode(bytes: Vec<u8>) -> (r: Option<String>)
    ensures
        r is Some <==> valid_utf8(bytes@),
        r matches Some(s) ==> s@ == decode_utf8(bytes@),
{
    match String::from_utf8(bytes) {
        Ok(s) => Some(s),
        Err(_) => None,
    }
}

} // verus!
