//! The byte-cache abstraction and its stores: in-memory, the pure core of
//! the content-addressed disk cache, and a no-op store.

use sha2::{Digest, Sha256};
use vstd::prelude::*;
use vstd::slice::{slice_index_get, slice_subrange};
use vstd::utf8::encode_utf8;

use crate::error::ContentError;
use crate::kvlist::{kv_contains_key, kv_get, kv_map, kv_remove_key, kv_set};
use crate::text::push_char;
use crate::types::copy_bytes;

verus! {

/// A byte store keyed by strings, consulted before and populated after
/// source lookups.
///
/// `model` is the mapping the store currently holds. `infallible` says
/// that no operation ever reports a store fault, and `retentive` that
/// `set` actually stores — a no-op cache is not retentive. A failed `set`
/// or `remove` leaves the store as it was, and a miss is an explicit
/// absence, never an error.
pub trait Cache: Sized {
    /// The mapping the store currently holds.
    spec fn model(&self) -> Map<Seq<char>, Seq<u8>>;

    /// Whether operations can never report a store fault.
    spec fn infallible(&self) -> bool;

    /// Whether `set` actually stores what it is given.
    spec fn retentive(&self) -> bool;

    /// The cached bytes under `key`, or an explicit miss.
    fn get(&self, key: &str) -> (r: Result<Option<Vec<u8>>, ContentError>)
        ensures
            match r {
                Ok(Some(v)) => self.model().contains_key(key@) && v@ == self.model()[key@],
                Ok(None) => !self.model().contains_key(key@),
                Err(e) => !self.infallible() && e@ is Cache,
            },
    ;

    /// Stores `value` under `key`.
    fn set(&mut self, key: &str, value: Vec<u8>) -> (r: Result<(), ContentError>)
        ensures
            final(self).infallible() == old(self).infallible(),
            final(self).retentive() == old(self).retentive(),
            match r {
                Ok(_) => final(self).model() == (if old(self).retentive() {
                    old(self).model().insert(key@, value@)
                } else {
                    old(self).model()
                }),
                Err(e) => !old(self).infallible() && e@ is Cache && final(self).model() == old(
                    self,
                ).model(),
            },
    ;

    /// Whether the store holds `key`.
    fn contains(&self, key: &str) -> (r: bool)
        ensures
            r == self.model().contains_key(key@),
    ;

    /// Drops `key`; removing an absent key succeeds and changes nothing.
    fn remove(&mut self, key: &str) -> (r: Result<(), ContentError>)
        ensures
            final(self).infallible() == old(self).infallible(),
            final(self).retentive() == old(self).retentive(),
            match r {
                Ok(_) => final(self).model() == old(self).model().remove(key@),
                Err(e) => !old(self).infallible() && e@ is Cache && final(self).model() == old(
                    self,
                ).model(),
            },
    ;

    /// Empties the store, leaving it as a freshly constructed instance.
    fn clear(&mut self) -> (r: Result<(), ContentError>)
        ensures
            final(self).infallible() == old(self).infallible(),
            final(self).retentive() == old(self).retentive(),
            match r {
                Ok(_) => final(self).model() == Map::<Seq<char>, Seq<u8>>::empty(),
                Err(e) => !old(self).infallible() && e@ is Cache,
            },
    ;
}

/// An in-memory store; its contents are lost on process restart.
pub struct MemoryCache {
    store: Vec<(String, Vec<u8>)>,
}

impl MemoryCache {
    /// An empty in-memory cache.
    pub fn new() -> (c: Self)
        ensures
            c.model() == Map::<Seq<char>, Seq<u8>>::empty(),
            c.infallible(),
            c.retentive(),
    {
        let c = MemoryCache { store: Vec::new() };
        proof {
            assert(c.model() =~= Map::<Seq<char>, Seq<u8>>::empty());
        }
        c
    }
}

impl Default for MemoryCache {
    fn default() -> (c: Self)
        ensures
            c.model() == Map::<Seq<char>, Seq<u8>>::empty(),
            c.infallible(),
            c.retentive(),
    {
        MemoryCache::new()
    }
}

impl Cache for MemoryCache {
    closed spec fn model(&self) -> Map<Seq<char>, Seq<u8>> {
        kv_map(self.store@)
    }

    open spec fn infallible(&self) -> bool {
        true
    }

    open spec fn retentive(&self) -> bool {
        true
    }

    fn get(&self, key: &str) -> (r: Result<Option<Vec<u8>>, ContentError>) {
        match kv_get(&self.store, key) {
            Some(v) => Ok(Some(copy_bytes(v))),
            None => Ok(None),
        }
    }

    fn set(&mut self, key: &str, value: Vec<u8>) -> (r: Result<(), ContentError>) {
        kv_set(&mut self.store, key, value);
        Ok(())
    }

    fn contains(&self, key: &str) -> (r: bool) {
        kv_contains_key(&self.store, key)
    }

    fn remove(&mut self, key: &str) -> (r: Result<(), ContentError>) {
        kv_remove_key(&mut self.store, key);
        Ok(())
    }

    fn clear(&mut self) -> (r: Result<(), ContentError>) {
        self.store.clear();
        proof {
            assert(self.model() =~= Map::<Seq<char>, Seq<u8>>::empty());
        }
        Ok(())
    }
}

/// A store that always misses and discards writes; it lets callers turn
/// caching off without branching the resolver logic.
pub struct NoCache;

impl Cache for NoCache {
    closed spec fn model(&self) -> Map<Seq<char>, Seq<u8>> {
        Map::empty()
    }

    open spec fn infallible(&self) -> bool {
        true
    }

    open spec fn retentive(&self) -> bool {
        false
    }

    fn get(&self, key: &str) -> (r: Result<Option<Vec<u8>>, ContentError>) {
        Ok(None)
    }

    fn set(&mut self, key: &str, value: Vec<u8>) -> (r: Result<(), ContentError>) {
        Ok(())
    }

    fn contains(&self, key: &str) -> (r: bool) {
        false
    }

    fn remove(&mut self, key: &str) -> (r: Result<(), ContentError>) {
        proof {
            assert(self.model().remove(key@) =~= self.model());
        }
        Ok(())
    }

    fn clear(&mut self) -> (r: Result<(), ContentError>) {
        Ok(())
    }
}

// ---------------------------------------------------------------------------
// The content-addressed key-to-path scheme of the disk cache
// ---------------------------------------------------------------------------
/// The SHA-256 digest of a byte sequence.
pub uninterp spec fn sha256_of(data: Seq<u8>) -> Seq<u8>;

/// Relies on sha2::Sha256 through the Digest trait: the 32-byte digest
/// depends on the input bytes alone.
#[verifier::external_body]
fn sha256(data: &[u8]) -> (r: Vec<u8>)
    ensures
        r@ == sha256_of(data@),
        r@.len() == 32,
{
    Sha256::digest(data).to_vec()
}

/// The lower-case hex character of one nibble.
pub open spec fn hex_digit(d: u8) -> char {
    match d {
        0u8 => '0',
        1u8 => '1',
        2u8 => '2',
        3u8 => '3',
        4u8 => '4',
        5u8 => '5',
        6u8 => '6',
        7u8 => '7',
        8u8 => '8',
        9u8 => '9',
        10u8 => 'a',
        11u8 => 'b',
        12u8 => 'c',
        13u8 => 'd',
        14u8 => 'e',
        _ => 'f',
    }
}

/// Two lower-case hex characters for each byte.
pub open spec fn hex_of(bytes: Seq<u8>) -> Seq<char>
    decreases bytes.len(),
{
    if bytes.len() == 0 {
        Seq::empty()
    } else {
        seq![hex_digit(bytes[0] / 16), hex_digit(bytes[0] % 16)] + hex_of(bytes.drop_first())
    }
}

fn hex_digit_exec(d: u8) -> (c: char)
    requires
        d < 16,
    ensures
        c == hex_digit(d),
{
    match d {
        0u8 => '0',
        1u8 => '1',
        2u8 => '2',
        3u8 => '3',
        4u8 => '4',
        5u8 => '5',
        6u8 => '6',
        7u8 => '7',
        8u8 => '8',
        9u8 => '9',
        10u8 => 'a',
        11u8 => 'b',
        12u8 => 'c',
        13u8 => 'd',
        14u8 => 'e',
        _ => 'f',
    }
}

/// Appends the hex encoding of the given bytes.
fn push_hex(s: &mut String, bytes: &[u8])
    ensures
        final(s)@ == old(s)@ + hex_of(bytes@),
{
    let n = bytes.len();
    let mut i: usize = 0;
    proof {
        assert(bytes@.skip(0) =~= bytes@);
    }
    while i < n
        invariant
            i <= n,
            n == bytes@.len(),
            old(s)@ + hex_of(bytes@) == s@ + hex_of(bytes@.skip(i as int)),
        decreases n - i,
    {
        let b = *slice_index_get(bytes, i);
        push_char(s, hex_digit_exec(b / 16));
        push_char(s, hex_digit_exec(b % 16));
        proof {
            assert(bytes@.skip(i as int).drop_first() =~= bytes@.skip(i + 1));
            assert(bytes@.skip(i as int)[0] == bytes@[i as int]);
            assert(s@ + hex_of(bytes@.skip(i + 1)) =~= old(s)@ + hex_of(bytes@));
        }
        i += 1;
    }
    proof {
        assert(hex_of(bytes@.skip(n as int)) =~= Seq::<char>::empty());
        assert(s@ + hex_of(bytes@.skip(n as int)) =~= s@);
    }
}

/// The storage path for a cache key under a root directory: the key is
/// hashed, the first two hex characters of the digest name a subdirectory
/// and the rest the file. That bounds per-directory fan-out and keeps
/// illegal filename characters out of the path.
pub open spec fn disk_path_spec(root: Seq<char>, key: Seq<char>) -> Seq<char> {
    let h = hex_of(sha256_of(encode_utf8(key)));
    root + seq!['/'] + h.take(2) + seq!['/'] + h.skip(2)
}

/// The pure core of the content-addressed disk cache: it owns the root
/// directory and the key-to-path scheme.
///
/// The surrounding application performs the file reads and writes at the
/// paths this type computes: `get` treats a missing file as a miss, `set`
/// creates the parent directory and then writes — concurrent writers to
/// one key race and the last completed write wins — and `clear` deletes
/// and recreates the root. The storage path depends on the root and the
/// key alone, so a fresh instance over the same root computes the same
/// paths and finds what an earlier one wrote.
pub struct DiskCache {
    root: String,
}

impl DiskCache {
    /// A disk cache rooted at the given directory.
    pub fn new(root: String) -> (c: Self)
        ensures
            c.root_spec() == root@,
    {
        DiskCache { root }
    }

    /// The root directory this cache stores under.
    pub closed spec fn root_spec(&self) -> Seq<char> {
        self.root@
    }

    /// The root directory, for the adapter that performs the file access.
    pub fn root_dir(&self) -> (r: &str)
        ensures
            r@ == self.root_spec(),
    {
        self.root.as_str()
    }

    /// The storage path of `key`: deterministic in the root and the key.
    pub fn key_to_path(&self, key: &str) -> (r: String)
        ensures
            r@ == disk_path_spec(self.root_spec(), key@),
    {
        let digest = sha256(key.as_bytes());
        let mut s = self.root.clone();
        push_char(&mut s, '/');
        push_hex(&mut s, slice_subrange(digest.as_slice(), 0, 1));
        push_char(&mut s, '/');
        push_hex(&mut s, slice_subrange(digest.as_slice(), 1, digest.len()));
        proof {
            let d = sha256_of(encode_utf8(key@));
            let h = hex_of(d);
            let sub = d.subrange(0, 1);
            assert(d.len() == 32);
            assert(sub.len() == 1);
            assert(sub[0] == d[0]);
            assert(sub.drop_first() =~= Seq::<u8>::empty());
            assert(hex_of(sub.drop_first()) =~= Seq::<char>::empty());
            assert(hex_of(sub) =~= seq![hex_digit(d[0] / 16), hex_digit(d[0] % 16)]);
            assert(d.subrange(1, d.len() as int) =~= d.drop_first());
            assert(h == seq![hex_digit(d[0] / 16), hex_digit(d[0] % 16)] + hex_of(d.drop_first()));
            assert(h.take(2) =~= hex_of(sub));
            assert(h.skip(2) =~= hex_of(d.drop_first()));
            assert(s@ =~= disk_path_spec(self.root_spec(), key@));
        }
        s
    }
}

} // verus!
