//! The path index: an append-only pool of paths, posting lists by lowercase
//! file name and by lowercase extension, a set of present paths for duplicate
//! rejection, and usage counters.

use ahash::AHashMap;
use vstd::hash_set::{HashSetWithView, StringHashSet};
use vstd::prelude::*;
use crate::error::FlashFindError;
use crate::postings::{
    add_posting, entry_texts, get_postings, keys_containing, lists_entries, new_postings,
    no_postings, paths_ending_with, posting_entries, posting_keys, posting_lists, push_posting,
};
use crate::text::{
    contains_text, extension_of, extension_text, file_name_of, file_name_text, has_infix, has_suffix,
    lower_of, lowercase, trim_of, trim_text,
};

verus! {

/// The most paths that the pool may hold.
pub const MAX_INDEX_SIZE: usize = 10_000_000;

/// The layout version of a stored index.
pub const INDEX_VERSION: u32 = 1;

/// A path that has a file name.
pub open spec fn valid_path(p: Seq<char>) -> bool {
    file_name_of(p) is Some
}

/// The filename posting key of a path: its lowercase file name.
pub open spec fn name_key(p: Seq<char>) -> Seq<char> {
    match file_name_of(p) {
        Some(n) => lower_of(n),
        None => Seq::empty(),
    }
}

/// The extension posting key of a path: its lowercase extension, if any.
pub open spec fn ext_key(p: Seq<char>) -> Option<Seq<char>> {
    match extension_of(p) {
        Some(e) => Some(lower_of(e)),
        None => None,
    }
}

/// The filename postings of a pool: each position listed, in order, under
/// its path's name key.
pub open spec fn name_postings(pool: Seq<Seq<char>>) -> Map<Seq<char>, Seq<u32>>
    decreases pool.len(),
{
    if pool.len() == 0 {
        no_postings()
    } else {
        add_posting(name_postings(pool.drop_last()), name_key(pool.last()), (pool.len() - 1) as u32)
    }
}

/// The extension postings of a pool: each position whose path has an
/// extension listed, in order, under its extension key.
pub open spec fn ext_postings(pool: Seq<Seq<char>>) -> Map<Seq<char>, Seq<u32>>
    decreases pool.len(),
{
    if pool.len() == 0 {
        no_postings()
    } else {
        match ext_key(pool.last()) {
            Some(e) => add_posting(ext_postings(pool.drop_last()), e, (pool.len() - 1) as u32),
            None => ext_postings(pool.drop_last()),
        }
    }
}

/// A counter increased by one, stopping at its largest value.
pub open spec fn bump(n: usize) -> usize {
    if n < usize::MAX { (n + 1) as usize } else { n }
}

/// The abstract state of a `FileIndex`.
pub struct IndexView {
    pub version: u32,
    pub pool: Seq<Seq<char>>,
    pub names: Map<Seq<char>, Seq<u32>>,
    pub exts: Map<Seq<char>, Seq<u32>>,
    pub seen: Set<Seq<char>>,
    pub insertions: usize,
    pub duplicates: usize,
    pub searches: usize,
}

impl IndexView {
    /// The invariant of the index: a bounded pool of paths with file names,
    /// postings that list exactly the pool's positions, and present paths
    /// drawn from the pool.
    pub open spec fn wf(self) -> bool {
        &&& self.pool.len() <= MAX_INDEX_SIZE
        &&& forall|i: int| 0 <= i < self.pool.len() ==> valid_path(#[trigger] self.pool[i])
            && name_key(self.pool[i]).len() > 0
        &&& self.names == name_postings(self.pool)
        &&& self.exts == ext_postings(self.pool)
        &&& forall|p: Seq<char>| #[trigger] self.seen.contains(p) ==> self.pool.contains(p)
        &&& self.insertions <= self.pool.len()
    }

    /// The pool has reached its capacity.
    pub open spec fn is_full(self) -> bool {
        self.pool.len() >= MAX_INDEX_SIZE
    }

    /// The state after inserting `p`: unchanged when `p` has no file name
    /// or the pool is full; one more duplicate when `p` is present; else
    /// `p` appended and listed.
    pub open spec fn after_insert(self, p: Seq<char>) -> IndexView {
        if !valid_path(p) || self.is_full() {
            self
        } else if self.seen.contains(p) {
            IndexView { duplicates: bump(self.duplicates), ..self }
        } else {
            IndexView {
                pool: self.pool.push(p),
                names: name_postings(self.pool.push(p)),
                exts: ext_postings(self.pool.push(p)),
                seen: self.seen.insert(p),
                insertions: (self.insertions + 1) as usize,
                ..self
            }
        }
    }
}


/// The texts of a sequence of strings.
pub open spec fn texts(s: Seq<String>) -> Seq<Seq<char>> {
    s.map_values(|x: String| x@)
}

/// A query after trimming and lowercasing.
pub open spec fn normalized(q: Seq<char>) -> Seq<char> {
    lower_of(trim_of(q))
}

/// Position `i` answers the extension query `n` (a dot, then `n`'s
/// extension): it is listed under that extension, or, where the extension
/// holds a dot itself, its lowercase path ends with `n`.
pub open spec fn ext_hit(v: IndexView, n: Seq<char>, i: int) -> bool {
    (v.exts.contains_key(n.drop_first()) && v.exts[n.drop_first()].contains(i as u32))
    || (has_infix(n.drop_first(), "."@) && has_suffix(lower_of(v.pool[i]), n))
}

/// Position `i` is listed under some file name key that contains `n`.
pub open spec fn name_hit(v: IndexView, n: Seq<char>, i: int) -> bool {
    exists|k: Seq<char>| #[trigger] v.names.contains_key(k) && has_infix(k, n) && v.names[k].contains(i as u32)
}

/// Position `i` of the pool answers the normalized, non-empty query `n`.
pub open spec fn search_hit(v: IndexView, n: Seq<char>, i: int) -> bool {
    &&& 0 <= i < v.pool.len()
    &&& if n[0] == '.' { ext_hit(v, n, i) } else { name_hit(v, n, i) }
}

/// The positions that answer `n`.
pub open spec fn hits(v: IndexView, n: Seq<char>) -> Set<int> {
    Set::new(|i: int| search_hit(v, n, i))
}

/// Lexicographic order of texts by code point, a prefix first.
pub open spec fn lex_le(a: Seq<char>, b: Seq<char>) -> bool
    decreases a.len(),
{
    if a.len() == 0 {
        true
    } else if b.len() == 0 {
        false
    } else if a[0] != b[0] {
        (a[0] as u32) < (b[0] as u32)
    } else {
        lex_le(a.drop_first(), b.drop_first())
    }
}

/// `p` is the path at some position that answers `n`.
pub open spec fn path_of_hit(v: IndexView, n: Seq<char>, p: Seq<char>) -> bool {
    exists|i: int| search_hit(v, n, i) && v.pool[i] == p
}

/// `rs` answers the normalized, non-empty query `n` on `v`: one path for
/// each answering position, the path at that position, in order of
/// lowercase file name.
pub open spec fn answers(v: IndexView, n: Seq<char>, rs: Seq<Seq<char>>) -> bool {
    &&& rs.len() == hits(v, n).len()
    &&& forall|j: int| 0 <= j < rs.len() ==> path_of_hit(v, n, #[trigger] rs[j])
    &&& forall|i: int| #[trigger] search_hit(v, n, i) ==> rs.contains(v.pool[i])
    &&& forall|a: int, b: int| 0 <= a < b < rs.len() ==> lex_le(name_key(rs[a]), name_key(rs[b]))
}

/// Relies on `slice::sort_unstable` of (name, position) pairs: the same
/// items in ascending order, which orders the names first. `str`'s order
/// compares the UTF-8 bytes, which orders code points.
#[verifier::external_body]
fn sort_by_name(v: &mut Vec<(String, u32)>)
    ensures
        final(v)@.to_multiset() == old(v)@.to_multiset(),
        forall|a: int, b: int| 0 <= a < b < final(v)@.len() ==> lex_le(final(v)@[a].0@, final(v)@[b].0@),
{
    v.sort_unstable()
}

/// `x` is among the first `j` items of `s`.
pub open spec fn in_prefix(s: Seq<u32>, j: int, x: u32) -> bool {
    exists|k: int| 0 <= k < j && s[k] == x
}

/// `x` is the position given by one of the first `j` items of `s`.
pub open spec fn in_pos_prefix(s: Seq<usize>, j: int, x: u32) -> bool {
    exists|k: int| 0 <= k < j && s[k] as u32 == x
}

/// Adds `i` to a list of distinct positions, unless it is there already.
fn add_hit(out: &mut Vec<u32>, marks: &mut HashSetWithView<u32>, i: u32)
    requires
        old(out)@.no_duplicates(),
        forall|x: u32| old(marks)@.contains(x) <==> old(out)@.contains(x),
    ensures
        final(out)@.no_duplicates(),
        forall|x: u32| final(marks)@.contains(x) <==> final(out)@.contains(x),
        forall|x: u32| #[trigger] final(out)@.contains(x) <==> (old(out)@.contains(x) || x == i),
{
    if !marks.contains(&i) {
        marks.insert(i);
        let ghost before = out@;
        out.push(i);
        proof {
            assert forall|x: u32| #[trigger] out@.contains(x) <==> (before.contains(x) || x == i) by {
                if before.contains(x) {
                    let j = choose|j: int| 0 <= j < before.len() && before[j] == x;
                    assert(out@[j] == x);
                }
                if x == i {
                    assert(out@[before.len() as int] == x);
                }
            }
        }
    }
}

/// A pool that a stored index may hold: within capacity, every path with a
/// file name.
pub open spec fn restorable(pool: Seq<Seq<char>>) -> bool {
    pool.len() <= MAX_INDEX_SIZE && forall|i: int| 0 <= i < pool.len() ==> valid_path(#[trigger] pool[i])
}

/// The index that a stored pool restores to: the pool, its postings, every
/// pool path present, and zero counters.
pub open spec fn restored(pool: Seq<Seq<char>>) -> IndexView {
    IndexView {
        version: INDEX_VERSION,
        pool: pool,
        names: name_postings(pool),
        exts: ext_postings(pool),
        seen: pool.to_set(),
        insertions: 0,
        duplicates: 0,
        searches: 0,
    }
}

/// The usage counters of an index; they are not stored.
struct IndexStats {
    insertions: usize,
    duplicates: usize,
    searches: usize,
}

/// The path index.
pub struct FileIndex {
    version: u32,
    pool: Vec<String>,
    filename_index: AHashMap<String, Vec<u32>>,
    extension_index: AHashMap<String, Vec<u32>>,
    seen_paths: StringHashSet,
    stats: IndexStats,
}

impl View for FileIndex {
    type V = IndexView;

    closed spec fn view(&self) -> IndexView {
        IndexView {
            version: self.version,
            pool: self.pool@.map_values(|s: String| s@),
            names: posting_lists(self.filename_index),
            exts: posting_lists(self.extension_index),
            seen: self.seen_paths@,
            insertions: self.stats.insertions,
            duplicates: self.stats.duplicates,
            searches: self.stats.searches,
        }
    }
}

proof fn lemma_postings_push(pool: Seq<Seq<char>>, p: Seq<char>)
    ensures
        name_postings(pool.push(p)) == add_posting(name_postings(pool), name_key(p), pool.len() as u32),
        ext_postings(pool.push(p)) == match ext_key(p) {
            Some(e) => add_posting(ext_postings(pool), e, pool.len() as u32),
            None => ext_postings(pool),
        },
{
    assert(pool.push(p).drop_last() =~= pool);
}

impl Default for FileIndex {
    /// An empty index of the current layout version.
    fn default() -> (r: Self)
        ensures
            r.wf(),
            r@.version == INDEX_VERSION,
            r@.pool.len() == 0,
            r@.seen.is_empty(),
            r@.insertions == 0,
            r@.duplicates == 0,
            r@.searches == 0,
    {
        FileIndex::new()
    }
}

impl FileIndex {
    /// The index invariant.
    pub open spec fn wf(&self) -> bool {
        self@.wf()
    }

    /// An empty index of the current layout version.
    pub fn new() -> (r: Self)
        ensures
            r.wf(),
            r@.version == INDEX_VERSION,
            r@.pool.len() == 0,
            r@.names == no_postings(),
            r@.exts == no_postings(),
            r@.seen.is_empty(),
            r@.insertions == 0,
            r@.duplicates == 0,
            r@.searches == 0,
    {
        let r = FileIndex {
            version: INDEX_VERSION,
            pool: Vec::new(),
            filename_index: new_postings(),
            extension_index: new_postings(),
            seen_paths: StringHashSet::new(),
            stats: IndexStats { insertions: 0, duplicates: 0, searches: 0 },
        };
        assert(r@.pool =~= Seq::<Seq<char>>::empty());
        r
    }

    /// The layout version of this index.
    pub fn version(&self) -> (r: u32)
        ensures
            r == self@.version,
    {
        self.version
    }

    /// The number of paths in the pool, removed ones included.
    pub fn len(&self) -> (r: usize)
        ensures
            r == self@.pool.len(),
    {
        self.pool.len()
    }

    /// Whether the pool holds no path.
    pub fn is_empty(&self) -> (r: bool)
        ensures
            r == (self@.pool.len() == 0),
    {
        self.pool.len() == 0
    }

    /// The counters: insertions, rejected duplicates, searches.
    pub fn stats(&self) -> (r: (usize, usize, usize))
        ensures
            r == (self@.insertions, self@.duplicates, self@.searches),
    {
        (self.stats.insertions, self.stats.duplicates, self.stats.searches)
    }

    /// Empties the pool, the postings and the present paths, and zeroes the
    /// counters; the version stays.
    pub fn clear(&mut self)
        ensures
            final(self).wf(),
            final(self)@.version == old(self)@.version,
            final(self)@.pool.len() == 0,
            final(self)@.names == no_postings(),
            final(self)@.exts == no_postings(),
            final(self)@.seen.is_empty(),
            final(self)@.insertions == 0,
            final(self)@.duplicates == 0,
            final(self)@.searches == 0,
    {
        self.pool = Vec::new();
        self.filename_index = new_postings();
        self.extension_index = new_postings();
        self.seen_paths.clear();
        self.stats = IndexStats { insertions: 0, duplicates: 0, searches: 0 };
        assert(self@.pool =~= Seq::<Seq<char>>::empty());
    }

    /// Makes the present paths exactly the paths of the pool.
    pub fn rebuild_cache(&mut self)
        requires
            old(self).wf(),
        ensures
            final(self).wf(),
            final(self)@ == (IndexView { seen: old(self)@.pool.to_set(), ..old(self)@ }),
    {
        let ghost pool = self@.pool;
        let mut seen = StringHashSet::new();
        let mut i: usize = 0;
        while i < self.pool.len()
            invariant
                self@ == old(self)@,
                pool == self@.pool,
                i <= pool.len(),
                forall|p: Seq<char>| #[trigger] seen@.contains(p) <==> exists|j: int| 0 <= j < i && pool[j] == p,
            decreases pool.len() - i,
        {
            seen.insert(self.pool[i].clone());
            proof {
                assert forall|p: Seq<char>| #[trigger] seen@.contains(p) <==> exists|j: int| 0 <= j < i + 1 && pool[j] == p by {
                    if p == pool[i as int] {
                        assert(exists|j: int| 0 <= j < i + 1 && pool[j] == p);
                    }
                }
            }
            i += 1;
        }
        self.seen_paths = seen;
        proof {
            assert forall|p: Seq<char>| #[trigger] self@.seen.contains(p) <==> pool.to_set().contains(p) by {
                if pool.contains(p) {
                    let j = choose|j: int| 0 <= j < pool.len() && pool[j] == p;
                    assert(exists|j: int| 0 <= j < pool.len() && pool[j] == p);
                }
            }
            assert(self@.seen =~= pool.to_set());
        }
    }

    /// Appends a path with the file name `name` to the pool and lists its
    /// position under its name key and extension key.
    fn append(&mut self, path: String, name: &str)
        requires
            old(self)@.pool.len() < MAX_INDEX_SIZE,
            file_name_of(path@) == Some(name@),
            old(self)@.names == name_postings(old(self)@.pool),
            old(self)@.exts == ext_postings(old(self)@.pool),
        ensures
            name_key(path@).len() > 0,
            final(self)@ == (IndexView {
                pool: old(self)@.pool.push(path@),
                names: name_postings(old(self)@.pool.push(path@)),
                exts: ext_postings(old(self)@.pool.push(path@)),
                ..old(self)@
            }),
    {
        let ghost old_pool = self@.pool;
        proof {
            lemma_postings_push(old_pool, path@);
        }
        let idx = self.pool.len() as u32;
        push_posting(&mut self.filename_index, lowercase(name), idx);
        if let Some(ext) = extension_text(path.as_str()) {
            push_posting(&mut self.extension_index, lowercase(ext.as_str()), idx);
        }
        self.pool.push(path);
        assert(self@.pool =~= old_pool.push(path@));
    }

    /// The paths of the pool, in order.
    pub fn paths(&self) -> (r: &Vec<String>)
        ensures
            texts(r@) == self@.pool,
    {
        &self.pool
    }

    /// The filename postings as entries, each key once.
    pub fn name_entries(&self) -> (r: Vec<(String, Vec<u32>)>)
        ensures
            lists_entries(self@.names, entry_texts(r@)),
    {
        posting_entries(&self.filename_index)
    }

    /// The extension postings as entries, each key once.
    pub fn ext_entries(&self) -> (r: Vec<(String, Vec<u32>)>)
        ensures
            lists_entries(self@.exts, entry_texts(r@)),
    {
        posting_entries(&self.extension_index)
    }

    /// Rebuilds an index from a stored version and pool: a version other
    /// than the current one is refused with `VersionMismatch`, a pool over
    /// capacity or with a path without a file name with `CorruptedIndex`.
    /// The postings are recomputed from the pool and every pool path is
    /// present.
    pub fn restore(version: u32, pool: Vec<String>) -> (r: Result<FileIndex, FlashFindError>)
        ensures
            version != INDEX_VERSION ==> r == Err::<FileIndex, FlashFindError>(
                FlashFindError::VersionMismatch { found: version, expected: INDEX_VERSION }),
            version == INDEX_VERSION && !restorable(texts(pool@)) ==> r == Err::<FileIndex, FlashFindError>(
                FlashFindError::CorruptedIndex),
            version == INDEX_VERSION && restorable(texts(pool@)) ==> (r matches Ok(idx) && idx.wf()
                && idx@ == restored(texts(pool@))),
    {
        if version != INDEX_VERSION {
            return Err(FlashFindError::VersionMismatch { found: version, expected: INDEX_VERSION });
        }
        if pool.len() > MAX_INDEX_SIZE {
            return Err(FlashFindError::CorruptedIndex);
        }
        let ghost ps = texts(pool@);
        let mut idx = FileIndex::new();
        let mut i: usize = 0;
        while i < pool.len()
            invariant
                ps == texts(pool@),
                version == INDEX_VERSION,
                pool@.len() <= MAX_INDEX_SIZE,
                i <= pool@.len(),
                idx@.version == INDEX_VERSION,
                idx@.pool == ps.subrange(0, i as int),
                idx@.names == name_postings(idx@.pool),
                idx@.exts == ext_postings(idx@.pool),
                idx@.seen.is_empty(),
                idx@.insertions == 0,
                idx@.duplicates == 0,
                idx@.searches == 0,
                forall|t: int| 0 <= t < i ==> valid_path(#[trigger] ps[t]) && name_key(ps[t]).len() > 0,
            decreases pool@.len() - i,
        {
            let p = &pool[i];
            assert(ps[i as int] == p@);
            match file_name_text(p.as_str()) {
                Some(name) => {
                    idx.append(p.clone(), name.as_str());
                    assert(idx@.pool =~= ps.subrange(0, i + 1));
                },
                None => {
                    assert(!valid_path(ps[i as int]));
                    return Err(FlashFindError::CorruptedIndex);
                },
            }
            i += 1;
        }
        assert(idx@.pool =~= ps);
        assert(idx.wf());
        idx.rebuild_cache();
        assert(idx@ =~= restored(ps));
        Ok(idx)
    }

    /// Inserts a path. A path without a file name is refused with
    /// `InvalidPath`; a full pool refuses with `IndexFull`; a present path is
    /// counted as a duplicate (`Ok(false)`); any other path is appended,
    /// listed under its lowercase name and extension, and counted
    /// (`Ok(true)`).
    pub fn insert(&mut self, path: String) -> (r: Result<bool, FlashFindError>)
        requires
            old(self).wf(),
        ensures
            final(self).wf(),
            final(self)@ == old(self)@.after_insert(path@),
            !valid_path(path@) ==> (r matches Err(FlashFindError::InvalidPath(s)) && s@ == path@),
            valid_path(path@) && old(self)@.is_full() ==> r == Err::<bool, FlashFindError>(FlashFindError::IndexFull(MAX_INDEX_SIZE)),
            valid_path(path@) && !old(self)@.is_full() ==> r == Ok::<bool, FlashFindError>(!old(self)@.seen.contains(path@)),
            r == Ok::<bool, FlashFindError>(true) ==> final(self)@.pool.len() == old(self)@.pool.len() + 1
                && final(self)@.seen.contains(path@),
    {
        let name = match file_name_text(path.as_str()) {
            Some(n) => n,
            None => {
                return Err(FlashFindError::InvalidPath(path));
            },
        };
        if self.pool.len() >= MAX_INDEX_SIZE {
            return Err(FlashFindError::IndexFull(MAX_INDEX_SIZE));
        }
        if self.seen_paths.contains(path.as_str()) {
            self.stats.duplicates = self.stats.duplicates.saturating_add(1);
            assert(self@ == (IndexView { duplicates: bump(old(self)@.duplicates), ..old(self)@ }));
            return Ok(false);
        }
        let ghost old_pool = self@.pool;
        self.seen_paths.insert(path.clone());
        self.append(path, name.as_str());
        self.stats.insertions = self.stats.insertions + 1;
        proof {
            assert forall|p: Seq<char>| #[trigger] self@.seen.contains(p) implies self@.pool.contains(p) by {
                if p != path@ {
                    assert(old_pool.contains(p));
                    let j = choose|j: int| 0 <= j < old_pool.len() && old_pool[j] == p;
                    assert(self@.pool[j] == p);
                } else {
                    assert(self@.pool[old_pool.len() as int] == p);
                }
            }
        }
        Ok(true)
    }

    /// Adds to `out` every position of `list` that lies inside the pool.
    fn add_listed(&self, list: &Vec<u32>, out: &mut Vec<u32>, marks: &mut HashSetWithView<u32>)
        requires
            old(out)@.no_duplicates(),
            forall|x: u32| old(marks)@.contains(x) <==> old(out)@.contains(x),
        ensures
            final(out)@.no_duplicates(),
            forall|x: u32| final(marks)@.contains(x) <==> final(out)@.contains(x),
            forall|x: u32| #[trigger] final(out)@.contains(x) <==> (old(out)@.contains(x)
                || ((x as int) < self@.pool.len() && list@.contains(x))),
    {
        let n = self.pool.len();
        let mut j: usize = 0;
        while j < list.len()
            invariant
                n == self@.pool.len(),
                j <= list@.len(),
                out@.no_duplicates(),
                forall|x: u32| marks@.contains(x) <==> out@.contains(x),
                forall|x: u32| #[trigger] out@.contains(x) <==> (old(out)@.contains(x)
                    || ((x as int) < n && in_prefix(list@, j as int, x))),
            decreases list@.len() - j,
        {
            let x = list[j];
            if (x as usize) < n {
                add_hit(out, marks, x);
            }
            assert forall|y: u32| in_prefix(list@, j + 1, y) <==> (in_prefix(list@, j as int, y) || y == x) by {
                if y == x {
                    assert(list@[j as int] == y);
                }
                if in_prefix(list@, j + 1, y) && y != x {
                    let k = choose|k: int| 0 <= k < j + 1 && list@[k] == y;
                    assert(k < j);
                }
            }
            j += 1;
        }
        assert forall|x: u32| in_prefix(list@, list@.len() as int, x) <==> list@.contains(x) by {
            if list@.contains(x) {
                let k = choose|k: int| 0 <= k < list@.len() && list@[k] == x;
                assert(in_prefix(list@, list@.len() as int, x));
            }
        }
    }

    /// The distinct positions of the pool that answer the normalized,
    /// non-empty query `q`.
    fn collect_hits(&self, q: &str) -> (r: Vec<u32>)
        requires
            self.wf(),
            q@.len() > 0,
        ensures
            r@.no_duplicates(),
            forall|x: u32| #[trigger] r@.contains(x) ==> (x as int) < self@.pool.len(),
            forall|i: int| 0 <= i < self@.pool.len() ==> (r@.contains(i as u32) <==> search_hit(self@, q@, i)),
    {
        broadcast use vstd::std_specs::hash::group_hash_axioms;
        let mut out: Vec<u32> = Vec::new();
        let mut marks: HashSetWithView<u32> = HashSetWithView::new();
        let n = self.pool.len();
        let qlen = q.unicode_len();
        let ghost v = self@;
        if q.get_char(0) == '.' {
            let ext = q.substring_char(1, qlen);
            assert(ext@ == q@.drop_first());
            match get_postings(&self.extension_index, ext) {
                Some(list) => {
                    self.add_listed(list, &mut out, &mut marks);
                },
                None => {},
            }
            assert forall|x: u32| (x as int) < n implies (#[trigger] out@.contains(x) <==>
                (v.exts.contains_key(q@.drop_first()) && v.exts[q@.drop_first()].contains(x))) by {}
            if contains_text(ext, ".") {
                let ends = paths_ending_with(&self.pool, q);
                let ghost before = out@;
                let mut j: usize = 0;
                while j < ends.len()
                    invariant
                        n == self@.pool.len(),
                        self@ == v,
                        ends@.len() == ends.len(),
                        forall|t: int| 0 <= t < ends@.len() ==> #[trigger] ends@[t] < n,
                        j <= ends@.len(),
                        out@.no_duplicates(),
                        forall|x: u32| marks@.contains(x) <==> out@.contains(x),
                        forall|x: u32| #[trigger] out@.contains(x) <==> (before.contains(x)
                            || in_pos_prefix(ends@, j as int, x)),
                    decreases ends@.len() - j,
                {
                    let x = ends[j] as u32;
                    add_hit(&mut out, &mut marks, x);
                    assert forall|y: u32| #[trigger] in_pos_prefix(ends@, j + 1, y)
                        <==> (in_pos_prefix(ends@, j as int, y) || y == x) by {
                        if y == x {
                            assert(ends@[j as int] as u32 == y);
                        }
                        if in_pos_prefix(ends@, j + 1, y) && y != x {
                            let k = choose|k: int| 0 <= k < j + 1 && ends@[k] as u32 == y;
                            assert(k < j);
                        }
                    }
                    j += 1;
                }
                proof {
                    assert forall|i: int| 0 <= i < n implies (out@.contains(i as u32) <==> #[trigger] search_hit(v, q@, i)) by {
                        assert(self.pool@[i]@ == v.pool[i]);
                        if has_suffix(lower_of(v.pool[i]), q@) {
                            assert(ends@.contains(i as usize));
                            let t = choose|t: int| 0 <= t < ends@.len() && ends@[t] == i as usize;
                            assert(ends@[t] as u32 == i as u32);
                            assert(in_pos_prefix(ends@, ends@.len() as int, i as u32));
                        }
                        if in_pos_prefix(ends@, ends@.len() as int, i as u32) {
                            let t = choose|t: int| 0 <= t < ends@.len() && ends@[t] as u32 == i as u32;
                            assert(ends@[t] as int == i);
                        }
                    }
                }
            } else {
                proof {
                    assert forall|i: int| 0 <= i < n implies (out@.contains(i as u32) <==> #[trigger] search_hit(v, q@, i)) by {}
                }
            }
        } else {
            let keys = posting_keys(&self.filename_index);
            let chosen = keys_containing(&keys, q);
            let nkeys = keys.len();
            let mut s: usize = 0;
            while s < chosen.len()
                invariant
                    n == self@.pool.len(),
                    self@ == v,
                    s <= chosen@.len(),
                    forall|t: int| 0 <= t < chosen@.len() ==> #[trigger] chosen@[t] < keys@.len(),
                    out@.no_duplicates(),
                    forall|x: u32| marks@.contains(x) <==> out@.contains(x),
                    forall|x: u32| #[trigger] out@.contains(x) <==> ((x as int) < n
                        && exists|t: int| 0 <= t < s && v.names.contains_key(keys@[chosen@[t] as int]@)
                            && v.names[keys@[chosen@[t] as int]@].contains(x)),
                decreases chosen@.len() - s,
            {
                let k = &keys[chosen[s]];
                let ghost kv = k@;
                match get_postings(&self.filename_index, k.as_str()) {
                    Some(list) => {
                        self.add_listed(list, &mut out, &mut marks);
                    },
                    None => {},
                }
                proof {
                    assert forall|x: u32| #[trigger] out@.contains(x) <==> ((x as int) < n
                        && exists|t: int| 0 <= t < s + 1 && v.names.contains_key(keys@[chosen@[t] as int]@)
                            && v.names[keys@[chosen@[t] as int]@].contains(x)) by {
                        if (x as int) < n && v.names.contains_key(kv) && v.names[kv].contains(x) {
                            assert(keys@[chosen@[s as int] as int]@ == kv);
                        }
                    }
                }
                s += 1;
            }
            proof {
                assert forall|i: int| 0 <= i < n implies (out@.contains(i as u32) <==> #[trigger] search_hit(v, q@, i)) by {
                    if out@.contains(i as u32) {
                        let t = choose|t: int| 0 <= t < chosen@.len() && v.names.contains_key(keys@[chosen@[t] as int]@)
                            && v.names[keys@[chosen@[t] as int]@].contains(i as u32);
                        let kk = keys@[chosen@[t] as int]@;
                        assert(has_infix(kk, q@));
                        assert(name_hit(v, q@, i));
                    }
                    if search_hit(v, q@, i) {
                        let kk = choose|kk: Seq<char>| #[trigger] v.names.contains_key(kk)
                            && has_infix(kk, q@) && v.names[kk].contains(i as u32);
                        let jj = choose|jj: int| 0 <= jj < keys@.len() && keys@[jj]@ == kk;
                        assert(jj < nkeys);
                        assert(chosen@.contains(jj as usize));
                        let t = choose|t: int| 0 <= t < chosen@.len() && chosen@[t] == jj as usize;
                        assert(chosen@[t] as int == jj);
                        assert(keys@[chosen@[t] as int]@ == kk);
                    }
                }
            }
        }
        out
    }

    /// The lowercase file name of a path with a file name.
    fn name_key_of(p: &String) -> (r: String)
        requires
            valid_path(p@),
        ensures
            r@ == name_key(p@),
    {
        match file_name_text(p.as_str()) {
            Some(n) => lowercase(n.as_str()),
            None => String::new(),
        }
    }

    /// Answers a query, under a shared hold. The query is trimmed and
    /// lowercased; an empty one has no answer. One that starts with a dot
    /// asks for the extension after that dot (and, where that extension holds
    /// a dot, for paths that end with the query); any other asks for file
    /// names that contain it. The answering paths come once per pool
    /// position, in order of lowercase file name. A removed path keeps its
    /// pool position and postings, so it still answers: only insertion
    /// consults the present paths.
    pub fn lookup(&self, query: &str) -> (r: Vec<String>)
        requires
            self.wf(),
        ensures
            trim_of(query@).len() == 0 ==> r@.len() == 0,
            normalized(query@).len() == 0 ==> r@.len() == 0,
            normalized(query@).len() > 0 ==> answers(self@, normalized(query@), texts(r@)),
    {
        let trimmed = trim_text(query);
        let q = lowercase(trimmed);
        self.lookup_normalized(q.as_str())
    }

    /// Counts a search of `query` unless it is blank.
    pub fn count_search(&mut self, query: &str)
        requires
            old(self).wf(),
        ensures
            final(self).wf(),
            trim_of(query@).len() == 0 ==> final(self)@ == old(self)@,
            trim_of(query@).len() > 0 ==> final(self)@ == (IndexView { searches: bump(old(self)@.searches), ..old(self)@ }),
    {
        if trim_text(query).unicode_len() > 0 {
            self.stats.searches = self.stats.searches.saturating_add(1);
        }
    }

    /// Answers a query as `lookup` does, and counts it unless it is blank.
    pub fn search(&mut self, query: &str) -> (r: Vec<String>)
        requires
            old(self).wf(),
        ensures
            final(self).wf(),
            trim_of(query@).len() == 0 ==> r@.len() == 0 && final(self)@ == old(self)@,
            trim_of(query@).len() > 0 ==> final(self)@ == (IndexView { searches: bump(old(self)@.searches), ..old(self)@ }),
            normalized(query@).len() > 0 ==> answers(old(self)@, normalized(query@), texts(r@)),
    {
        let r = self.lookup(query);
        self.count_search(query);
        r
    }

    /// Answers a query that is already trimmed and lowercased, as `search`
    /// does after normalizing, and counts it unless it is empty.
    pub fn search_normalized(&mut self, q: &str) -> (r: Vec<String>)
        requires
            old(self).wf(),
        ensures
            final(self).wf(),
            q@.len() == 0 ==> r@.len() == 0 && final(self)@ == old(self)@,
            q@.len() > 0 ==> final(self)@ == (IndexView { searches: bump(old(self)@.searches), ..old(self)@ }),
            q@.len() > 0 ==> answers(old(self)@, q@, texts(r@)),
    {
        let r = self.lookup_normalized(q);
        if q.unicode_len() > 0 {
            self.stats.searches = self.stats.searches.saturating_add(1);
        }
        r
    }

    /// Answers a query that is already trimmed and lowercased, under a
    /// shared hold.
    pub fn lookup_normalized(&self, q: &str) -> (r: Vec<String>)
        requires
            self.wf(),
        ensures
            q@.len() == 0 ==> r@.len() == 0,
            q@.len() > 0 ==> answers(self@, q@, texts(r@)),
    {
        broadcast use vstd::seq_lib::group_to_multiset_ensures;
        if q.unicode_len() == 0 {
            return Vec::new();
        }
        let ghost v = self@;
        let ghost n = q@;
        let found = self.collect_hits(q);
        let mut pairs: Vec<(String, u32)> = Vec::new();
        let mut j: usize = 0;
        while j < found.len()
            invariant
                self@ == v,
                self.wf(),
                j <= found@.len(),
                forall|x: u32| #[trigger] found@.contains(x) ==> (x as int) < v.pool.len(),
                pairs@.len() == j,
                forall|t: int| 0 <= t < j ==> (#[trigger] pairs@[t]).1 == found@[t]
                    && pairs@[t].0@ == name_key(v.pool[found@[t] as int]),
            decreases found@.len() - j,
        {
            let i = found[j];
            assert(found@.contains(i));
            assert(self.pool@[i as int]@ == v.pool[i as int]);
            let key = Self::name_key_of(&self.pool[i as usize]);
            pairs.push((key, i));
            j += 1;
        }
        let ghost unsorted = pairs@;
        sort_by_name(&mut pairs);
        let mut out: Vec<String> = Vec::new();
        let mut k: usize = 0;
        while k < pairs.len()
            invariant
                self@ == v,
                self.wf(),
                k <= pairs@.len(),
                pairs@.to_multiset() == unsorted.to_multiset(),
                forall|t: int| 0 <= t < unsorted.len() ==> (#[trigger] unsorted[t]).1 == found@[t]
                    && unsorted[t].0@ == name_key(v.pool[found@[t] as int]),
                forall|x: u32| #[trigger] found@.contains(x) ==> (x as int) < v.pool.len(),
                unsorted.len() == found@.len(),
                out@.len() == k,
                forall|t: int| 0 <= t < k ==> (#[trigger] out@[t])@ == v.pool[pairs@[t].1 as int],
            decreases pairs@.len() - k,
        {
            let i = pairs[k].1;
            proof {
                assert(pairs@.contains(pairs@[k as int]));
                pairs@.to_multiset_ensures();
                unsorted.to_multiset_ensures();
                assert(pairs@.to_multiset().count(pairs@[k as int]) > 0);
                assert(unsorted.to_multiset().count(pairs@[k as int]) > 0);
                assert(unsorted.contains(pairs@[k as int]));
                let t = choose|t: int| 0 <= t < unsorted.len() && unsorted[t] == pairs@[k as int];
                assert(found@.contains(found@[t]));
                assert(self.pool@[i as int]@ == v.pool[i as int]);
            }
            out.push(self.pool[i as usize].clone());
            k += 1;
        }
        proof {
            let rs = texts(out@);
            assert(rs.len() == out@.len());
            let fi = found@.map_values(|x: u32| x as int);
            pairs@.to_multiset_ensures();
            unsorted.to_multiset_ensures();
            assert forall|a: int, b: int| 0 <= a < b < fi.len() implies fi[a] != fi[b] by {
                assert(found@[a] != found@[b]);
            }
            assert forall|i: int| #[trigger] fi.to_set().contains(i) <==> hits(v, n).contains(i) by {
                if fi.contains(i) {
                    let t = choose|t: int| 0 <= t < fi.len() && fi[t] == i;
                    assert(found@.contains(found@[t]));
                    assert(found@[t] as int == i);
                    assert((i as u32) == found@[t]);
                }
                if search_hit(v, n, i) {
                    assert(found@.contains(i as u32));
                    let t = choose|t: int| 0 <= t < found@.len() && found@[t] == i as u32;
                    assert(fi[t] == i);
                }
            }
            assert(fi.to_set() =~= hits(v, n));
            fi.unique_seq_to_set();
            // every answer is the path of an answering position
            assert forall|a: int| 0 <= a < rs.len() implies path_of_hit(v, n, #[trigger] rs[a]) by {
                assert(pairs@.contains(pairs@[a]));
                assert(pairs@.to_multiset().count(pairs@[a]) > 0);
                assert(unsorted.contains(pairs@[a]));
                let t = choose|t: int| 0 <= t < unsorted.len() && unsorted[t] == pairs@[a];
                assert(found@.contains(found@[t]));
                let i = found@[t] as int;
                assert((i as u32) == found@[t]);
                assert(search_hit(v, n, i));
                assert(rs[a] == v.pool[i]);
            }
            // every answering position gives an answer
            assert forall|i: int| #[trigger] search_hit(v, n, i) implies rs.contains(v.pool[i]) by {
                assert(found@.contains(i as u32));
                let t = choose|t: int| 0 <= t < found@.len() && found@[t] == i as u32;
                assert(unsorted.contains(unsorted[t]));
                assert(unsorted.to_multiset().count(unsorted[t]) > 0);
                assert(pairs@.contains(unsorted[t]));
                let a = choose|a: int| 0 <= a < pairs@.len() && pairs@[a] == unsorted[t];
                assert(rs[a] == v.pool[i]);
            }
            // answers come in order of their name keys
            assert forall|a: int, b: int| 0 <= a < b < rs.len() implies lex_le(name_key(rs[a]), name_key(rs[b])) by {
                assert(pairs@.contains(pairs@[a]));
                assert(pairs@.to_multiset().count(pairs@[a]) > 0);
                assert(unsorted.contains(pairs@[a]));
                let ta = choose|t: int| 0 <= t < unsorted.len() && unsorted[t] == pairs@[a];
                assert(pairs@.contains(pairs@[b]));
                assert(pairs@.to_multiset().count(pairs@[b]) > 0);
                assert(unsorted.contains(pairs@[b]));
                let tb = choose|t: int| 0 <= t < unsorted.len() && unsorted[t] == pairs@[b];
                assert(name_key(rs[a]) == pairs@[a].0@);
                assert(name_key(rs[b]) == pairs@[b].0@);
            }
            assert(pairs@.len() == unsorted.len());
            assert(rs.len() == hits(v, n).len());
            assert(answers(v, n, rs));
        }
        out
    }

    /// Marks a path as no longer present. Its pool slot and postings stay;
    /// `Ok(true)` when it was present, `Ok(false)` otherwise.
    pub fn remove(&mut self, path: &str) -> (r: Result<bool, FlashFindError>)
        requires
            old(self).wf(),
        ensures
            final(self).wf(),
            final(self)@ == (IndexView { seen: old(self)@.seen.remove(path@), ..old(self)@ }),
            r == Ok::<bool, FlashFindError>(old(self)@.seen.contains(path@)),
    {
        let present = self.seen_paths.remove(path);
        Ok(present)
    }
}

} // verus!
