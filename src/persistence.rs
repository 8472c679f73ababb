//! The stored form of an index: the version, the pool and both posting maps
//! as entry lists, encoded with bincode.

use vstd::prelude::*;
use crate::error::FlashFindError;
use crate::index::{restorable, restored, texts, FileIndex, IndexView, INDEX_VERSION};
use crate::postings::{entry_texts, lists_entries};

verus! {

#[verifier::external_type_specification]
#[verifier::external_body]
pub struct ExBincodeErrorKind(bincode::ErrorKind);

/// The bytes that bincode writes for a stored index: the version, the pool,
/// the filename entries and the extension entries, as one tuple.
pub uninterp spec fn encoded_snapshot(
    version: u32,
    pool: Seq<Seq<char>>,
    names: Seq<(Seq<char>, Seq<u32>)>,
    exts: Seq<(Seq<char>, Seq<u32>)>,
) -> Seq<u8>;

/// A stored index as bincode reads it: version, pool, filename entries and
/// extension entries.
pub type SnapshotTuple = (u32, Vec<String>, Vec<(String, Vec<u32>)>, Vec<(String, Vec<u32>)>);

/// The parts of a stored index.
pub struct StoredParts {
    pub version: u32,
    pub pool: Seq<Seq<char>>,
    pub names: Seq<(Seq<char>, Seq<u32>)>,
    pub exts: Seq<(Seq<char>, Seq<u32>)>,
}

impl StoredParts {
    /// The bytes that bincode writes for these parts.
    pub open spec fn encoded(self) -> Seq<u8> {
        encoded_snapshot(self.version, self.pool, self.names, self.exts)
    }
}

/// `r` is the successful decoding of `s`.
pub open spec fn decoded_as(r: Result<SnapshotTuple, bincode::Error>, s: StoredParts) -> bool {
    r matches Ok(t) && t.0 == s.version && texts(t.1@) == s.pool && entry_texts(t.2@) == s.names
        && entry_texts(t.3@) == s.exts
}

/// `b` is a stored form of the index `v`: its version and pool with its
/// posting maps listed in some order.
pub open spec fn stored_as(v: IndexView, b: Seq<u8>) -> bool {
    exists|f: Seq<(Seq<char>, Seq<u32>)>, e: Seq<(Seq<char>, Seq<u32>)>|
        lists_entries(v.names, f) && lists_entries(v.exts, e)
        && #[trigger] encoded_snapshot(v.version, v.pool, f, e) == b
}

/// Relies on `bincode::serialize` of a tuple of an integer, a vector of
/// strings and two vectors of (string, vector of integers) pairs: the bytes
/// depend on the values alone, and with bincode's default options (no size
/// limit) such values, whose lengths are all known, always encode.
#[verifier::external_body]
fn encode_snapshot(
    version: u32,
    pool: &Vec<String>,
    names: &Vec<(String, Vec<u32>)>,
    exts: &Vec<(String, Vec<u32>)>,
) -> (r: Result<Vec<u8>, bincode::Error>)
    ensures
        r is Ok,
        r matches Ok(b) ==> b@ == encoded_snapshot(version, texts(pool@), entry_texts(names@), entry_texts(exts@)),
{
    bincode::serialize(&(version, pool, names, exts))
}

/// Whether bincode decodes the bytes into the stored-index tuple.
pub uninterp spec fn decodes(b: Seq<u8>) -> bool;

/// Relies on `bincode::deserialize` into the tuple type that
/// `encode_snapshot` writes: whether it succeeds depends on the bytes alone,
/// and bytes that `bincode::serialize` wrote for a value decode to that
/// value.
#[verifier::external_body]
fn decode_snapshot(b: &[u8]) -> (r: Result<SnapshotTuple, bincode::Error>)
    ensures
        r is Ok == decodes(b@),
        forall|s: StoredParts| b@ == #[trigger] s.encoded() ==> decoded_as(r, s),
{
    bincode::deserialize(b)
}

/// Encodes an index for storage; the encoding always succeeds.
pub fn encode_index(index: &FileIndex) -> (r: Result<Vec<u8>, FlashFindError>)
    requires
        index.wf(),
    ensures
        r matches Ok(b) && stored_as(index@, b@),
{
    let names = index.name_entries();
    let exts = index.ext_entries();
    match encode_snapshot(index.version(), index.paths(), &names, &exts) {
        Ok(b) => {
            assert(lists_entries(index@.names, entry_texts(names@)));
            assert(stored_as(index@, b@));
            Ok(b)
        },
        Err(_) => Err(FlashFindError::CorruptedIndex),
    }
}

/// What decoding a stored index with parts `s` gives: `VersionMismatch`
/// for another version, `CorruptedIndex` for a pool that cannot be
/// restored, and otherwise the index that the pool restores to.
pub open spec fn restores_from(s: StoredParts, r: Result<FileIndex, FlashFindError>) -> bool {
    if s.version != INDEX_VERSION {
        r == Err::<FileIndex, FlashFindError>(
            FlashFindError::VersionMismatch { found: s.version, expected: INDEX_VERSION })
    } else if !restorable(s.pool) {
        r == Err::<FileIndex, FlashFindError>(FlashFindError::CorruptedIndex)
    } else {
        r matches Ok(idx) && idx.wf() && idx@ == restored(s.pool)
    }
}

/// Decodes a stored index. Bytes that do not decode are refused with
/// `CorruptedIndex`; a decoded index goes through `FileIndex::restore`,
/// which checks the version and recomputes the postings from the stored
/// pool. So bytes that store a well-formed index of the current version give
/// back its version, pool and postings, with every pool path present and
/// zero counters.
pub fn decode_index(bytes: &[u8]) -> (r: Result<FileIndex, FlashFindError>)
    ensures
        !decodes(bytes@) ==> r == Err::<FileIndex, FlashFindError>(FlashFindError::CorruptedIndex),
        r matches Ok(idx) ==> idx.wf(),
        forall|s: StoredParts| #[trigger] s.encoded() == bytes@ ==> restores_from(s, r),
        forall|v: IndexView| #[trigger] stored_as(v, bytes@) && v.wf() && v.version == INDEX_VERSION ==> (
            r matches Ok(idx) && idx@ == restored(v.pool) && idx@.version == v.version
                && idx@.pool == v.pool && idx@.names == v.names && idx@.exts == v.exts),
{
    let d = decode_snapshot(bytes);
    match d {
        Ok(t) => {
            let (version, pool, _names, _exts) = t;
            let r = FileIndex::restore(version, pool);
            proof {
                assert forall|s: StoredParts| #[trigger] s.encoded() == bytes@ implies restores_from(s, r) by {
                    assert(decoded_as(d, s));
                    assert(version == s.version);
                    assert(texts(pool@) == s.pool);
                }
                assert forall|v: IndexView| #[trigger] stored_as(v, bytes@) && v.wf() && v.version == INDEX_VERSION implies (
                    r matches Ok(idx) && idx@ == restored(v.pool) && idx@.version == v.version
                        && idx@.pool == v.pool && idx@.names == v.names && idx@.exts == v.exts) by {
                    let (f, e) = choose|f: Seq<(Seq<char>, Seq<u32>)>, e: Seq<(Seq<char>, Seq<u32>)>|
                        lists_entries(v.names, f) && lists_entries(v.exts, e)
                        && #[trigger] encoded_snapshot(v.version, v.pool, f, e) == bytes@;
                    let parts = StoredParts { version: v.version, pool: v.pool, names: f, exts: e };
                    assert(parts.encoded() == bytes@);
                    assert(version == v.version);
                    assert(texts(pool@) == v.pool);
                    assert(restorable(v.pool));
                }
            }
            r
        },
        Err(_) => {
            proof {
                assert forall|s: StoredParts| #[trigger] s.encoded() == bytes@
                    implies restores_from(s, Err::<FileIndex, FlashFindError>(FlashFindError::CorruptedIndex)) by {
                    assert(decoded_as(d, s));
                }
                assert forall|v: IndexView| #[trigger] stored_as(v, bytes@) implies false by {
                    let (f, e) = choose|f: Seq<(Seq<char>, Seq<u32>)>, e: Seq<(Seq<char>, Seq<u32>)>|
                        lists_entries(v.names, f) && lists_entries(v.exts, e)
                        && #[trigger] encoded_snapshot(v.version, v.pool, f, e) == bytes@;
                    let parts = StoredParts { version: v.version, pool: v.pool, names: f, exts: e };
                    assert(parts.encoded() == bytes@);
                    assert(decoded_as(d, parts));
                }
            }
            Err(FlashFindError::CorruptedIndex)
        },
    }
}

} // verus!
