//! Properties of the index that relate several operations or hold of every
//! pool position.

use vstd::prelude::*;
use crate::filter::{exclusion_patterns, excluded, is_hidden_name, matches_exclusion};
use crate::index::{
    answers, ext_key, ext_postings, hits, name_key, name_postings, normalized, restored, search_hit,
    IndexView, MAX_INDEX_SIZE,
};
use crate::postings::{add_posting, list_or_empty, no_postings};
use crate::text::{file_name_of, has_infix, has_suffix, lower_of};

verus! {

/// A key occurs in itself.
proof fn lemma_infix_self(k: Seq<char>)
    ensures
        has_infix(k, k),
{
    let i: int = 0;
    assert(k.subrange(i, i + k.len()) =~= k);
}

/// Every position of a pool is listed under its name key.
pub proof fn lemma_name_postings_complete(pool: Seq<Seq<char>>, i: int)
    requires
        0 <= i < pool.len(),
        pool.len() <= u32::MAX,
    ensures
        name_postings(pool).contains_key(name_key(pool[i])),
        name_postings(pool)[name_key(pool[i])].contains(i as u32),
    decreases pool.len(),
{
    let m = name_postings(pool.drop_last());
    let k = name_key(pool.last());
    let n = (pool.len() - 1) as u32;
    if i == pool.len() - 1 {
        assert(list_or_empty(m, k).push(n)[list_or_empty(m, k).len() as int] == n);
    } else {
        lemma_name_postings_complete(pool.drop_last(), i);
        assert(pool.drop_last()[i] == pool[i]);
        let ki = name_key(pool[i]);
        if ki == k {
            let l = m[ki];
            let j = choose|j: int| 0 <= j < l.len() && l[j] == i as u32;
            assert(l.push(n)[j] == i as u32);
        }
    }
}

/// Every position of a pool whose path has an extension is listed under
/// that extension's key.
pub proof fn lemma_ext_postings_complete(pool: Seq<Seq<char>>, i: int, e: Seq<char>)
    requires
        0 <= i < pool.len(),
        pool.len() <= u32::MAX,
        ext_key(pool[i]) == Some(e),
    ensures
        ext_postings(pool).contains_key(e),
        ext_postings(pool)[e].contains(i as u32),
    decreases pool.len(),
{
    let m = ext_postings(pool.drop_last());
    let n = (pool.len() - 1) as u32;
    if i == pool.len() - 1 {
        assert(list_or_empty(m, e).push(n)[list_or_empty(m, e).len() as int] == n);
    } else {
        lemma_ext_postings_complete(pool.drop_last(), i, e);
        assert(pool.drop_last()[i] == pool[i]);
        match ext_key(pool.last()) {
            Some(k) => {
                if k == e {
                    let l = m[e];
                    let j = choose|j: int| 0 <= j < l.len() && l[j] == i as u32;
                    assert(l.push(n)[j] == i as u32);
                }
            },
            None => {},
        }
    }
}

/// A position listed under an extension key lies in the pool, and its path
/// has that extension.
pub proof fn lemma_ext_postings_sound(pool: Seq<Seq<char>>, k: Seq<char>, x: u32)
    requires
        pool.len() <= u32::MAX,
        ext_postings(pool).contains_key(k),
        ext_postings(pool)[k].contains(x),
    ensures
        (x as int) < pool.len(),
        ext_key(pool[x as int]) == Some(k),
    decreases pool.len(),
{
    if pool.len() == 0 {
        assert(no_postings().dom().is_empty());
    } else {
        let m = ext_postings(pool.drop_last());
        let n = (pool.len() - 1) as u32;
        match ext_key(pool.last()) {
            Some(e) => {
                let l = list_or_empty(m, e);
                if e == k {
                    let j = choose|j: int| 0 <= j < l.push(n).len() && l.push(n)[j] == x;
                    if j < l.len() {
                        assert(m.contains_key(k));
                        assert(m[k].contains(x));
                        lemma_ext_postings_sound(pool.drop_last(), k, x);
                        assert(pool.drop_last()[x as int] == pool[x as int]);
                    }
                } else {
                    lemma_ext_postings_sound(pool.drop_last(), k, x);
                    assert(pool.drop_last()[x as int] == pool[x as int]);
                }
            },
            None => {
                lemma_ext_postings_sound(pool.drop_last(), k, x);
                assert(pool.drop_last()[x as int] == pool[x as int]);
            },
        }
    }
}

/// A position listed under a name key lies in the pool, and its path has
/// that name key.
pub proof fn lemma_name_postings_sound(pool: Seq<Seq<char>>, k: Seq<char>, x: u32)
    requires
        pool.len() <= u32::MAX,
        name_postings(pool).contains_key(k),
        name_postings(pool)[k].contains(x),
    ensures
        (x as int) < pool.len(),
        name_key(pool[x as int]) == k,
    decreases pool.len(),
{
    if pool.len() == 0 {
        assert(no_postings().dom().is_empty());
    } else {
        let m = name_postings(pool.drop_last());
        let n = (pool.len() - 1) as u32;
        let e = name_key(pool.last());
        let l = list_or_empty(m, e);
        if e == k {
            let j = choose|j: int| 0 <= j < l.push(n).len() && l.push(n)[j] == x;
            if j < l.len() {
                assert(m.contains_key(k));
                assert(m[k].contains(x));
                lemma_name_postings_sound(pool.drop_last(), k, x);
                assert(pool.drop_last()[x as int] == pool[x as int]);
            }
        } else {
            lemma_name_postings_sound(pool.drop_last(), k, x);
            assert(pool.drop_last()[x as int] == pool[x as int]);
        }
    }
}

/// In a well-formed index every position that a posting list holds lies
/// inside the pool.
pub proof fn lemma_postings_inside_pool(v: IndexView)
    requires
        v.wf(),
    ensures
        forall|k: Seq<char>, x: u32| v.names.contains_key(k) && #[trigger] v.names[k].contains(x)
            ==> (x as int) < v.pool.len(),
        forall|k: Seq<char>, x: u32| v.exts.contains_key(k) && #[trigger] v.exts[k].contains(x)
            ==> (x as int) < v.pool.len(),
{
    assert forall|k: Seq<char>, x: u32| v.names.contains_key(k) && #[trigger] v.names[k].contains(x)
        implies (x as int) < v.pool.len() by {
        lemma_name_postings_sound(v.pool, k, x);
    }
    assert forall|k: Seq<char>, x: u32| v.exts.contains_key(k) && #[trigger] v.exts[k].contains(x)
        implies (x as int) < v.pool.len() by {
        lemma_ext_postings_sound(v.pool, k, x);
    }
}

/// An insertion that succeeds adds one path to the pool and makes it
/// present.
pub proof fn lemma_inserted_grows(v: IndexView, p: Seq<char>)
    requires
        v.wf(),
        file_name_of(p) is Some,
        !v.is_full(),
        !v.seen.contains(p),
    ensures
        v.after_insert(p).pool.len() == v.pool.len() + 1,
        v.after_insert(p).seen.contains(p),
{
}

/// Inserting a new path twice in a row: the first insertion meets a pool
/// with room and the path absent, so it adds it (`Ok(true)` by `insert`'s
/// contract); the second meets a pool with room and the path present, so it
/// counts a duplicate (`Ok(false)`). The pool grows by one over both, and
/// the duplicate counter by one. The second insertion must not meet a full
/// pool, and the counter, which stops at its largest value, must be below
/// it.
pub proof fn lemma_insert_twice(v: IndexView, p: Seq<char>)
    requires
        v.wf(),
        file_name_of(p) is Some,
        !v.seen.contains(p),
        v.pool.len() + 1 < MAX_INDEX_SIZE,
        v.duplicates < usize::MAX,
    ensures
        !v.is_full(),
        !v.after_insert(p).is_full(),
        v.after_insert(p).seen.contains(p),
        v.after_insert(p).pool.len() == v.pool.len() + 1,
        v.after_insert(p).after_insert(p).pool == v.after_insert(p).pool,
        v.after_insert(p).after_insert(p).pool.len() == v.pool.len() + 1,
        v.after_insert(p).after_insert(p).duplicates == v.after_insert(p).duplicates + 1,
        v.after_insert(p).after_insert(p).duplicates == v.duplicates + 1,
{
}

/// Every path of a saved index is found again after loading: loading
/// restores the saved pool (see `decode_index`), and there a query that
/// normalizes to a path's name key, without a leading dot, finds it.
pub proof fn lemma_reload_finds(v: IndexView, i: int, q: Seq<char>, rs: Seq<Seq<char>>)
    requires
        v.wf(),
        0 <= i < v.pool.len(),
        normalized(q) == name_key(v.pool[i]),
        normalized(q)[0] != '.',
        answers(restored(v.pool), normalized(q), rs),
    ensures
        rs.contains(v.pool[i]),
{
    let w = restored(v.pool);
    assert forall|p: Seq<char>| #[trigger] w.seen.contains(p) implies w.pool.contains(p) by {}
    assert(w.wf());
    lemma_name_query_finds(w, i, q, rs);
}

/// At capacity: the insertion that fills the pool succeeds, and after it
/// every insertion of a path with a file name is refused as full.
pub proof fn lemma_capacity_boundary(v: IndexView, p: Seq<char>, q: Seq<char>)
    requires
        v.wf(),
        v.pool.len() == MAX_INDEX_SIZE - 1,
        file_name_of(p) is Some,
        !v.seen.contains(p),
    ensures
        v.after_insert(p).pool.len() == MAX_INDEX_SIZE,
        v.after_insert(p).is_full(),
        v.after_insert(p).after_insert(q) == v.after_insert(p),
{
}

/// A query that normalizes to the name key of a pool path, and does not
/// start with a dot, finds that path.
pub proof fn lemma_name_query_finds(v: IndexView, i: int, q: Seq<char>, rs: Seq<Seq<char>>)
    requires
        v.wf(),
        0 <= i < v.pool.len(),
        normalized(q) == name_key(v.pool[i]),
        normalized(q)[0] != '.',
        answers(v, normalized(q), rs),
    ensures
        rs.contains(v.pool[i]),
{
    let n = normalized(q);
    lemma_name_postings_complete(v.pool, i);
    lemma_infix_self(n);
    assert(v.names.contains_key(n) && has_infix(n, n) && v.names[n].contains(i as u32));
    assert(search_hit(v, n, i));
}

/// The query made of a dot and the extension key of a pool path finds that
/// path.
pub proof fn lemma_ext_query_finds(v: IndexView, i: int, e: Seq<char>, q: Seq<char>, rs: Seq<Seq<char>>)
    requires
        v.wf(),
        0 <= i < v.pool.len(),
        ext_key(v.pool[i]) == Some(e),
        normalized(q) == seq!['.'] + e,
        answers(v, normalized(q), rs),
    ensures
        rs.contains(v.pool[i]),
{
    let n = normalized(q);
    assert(n.drop_first() =~= e);
    lemma_ext_postings_complete(v.pool, i, e);
    assert(search_hit(v, n, i));
}

/// A dot query whose extension is no extension key, and holds no dot
/// itself, finds nothing.
pub proof fn lemma_unknown_ext_query_empty(v: IndexView, q: Seq<char>, rs: Seq<Seq<char>>)
    requires
        v.wf(),
        normalized(q).len() > 0,
        normalized(q)[0] == '.',
        !v.exts.contains_key(normalized(q).drop_first()),
        !has_infix(normalized(q).drop_first(), "."@),
        answers(v, normalized(q), rs),
    ensures
        rs.len() == 0,
{
    let n = normalized(q);
    assert(hits(v, n) =~= Set::<int>::empty());
}

/// A pool path without an extension is listed under no extension key, and
/// is listed under its name key.
pub proof fn lemma_no_ext_only_names(v: IndexView, i: int)
    requires
        v.wf(),
        0 <= i < v.pool.len(),
        ext_key(v.pool[i]) is None,
    ensures
        forall|k: Seq<char>| #[trigger] v.exts.contains_key(k) ==> !v.exts[k].contains(i as u32),
        v.names.contains_key(name_key(v.pool[i])),
        v.names[name_key(v.pool[i])].contains(i as u32),
{
    lemma_name_postings_complete(v.pool, i);
    assert forall|k: Seq<char>| #[trigger] v.exts.contains_key(k) implies !v.exts[k].contains(i as u32) by {
        if v.exts[k].contains(i as u32) {
            lemma_ext_postings_sound(v.pool, k, i as u32);
        }
    }
}

/// Every exclusion pattern excludes any path whose lowercase form holds it;
/// a path whose lowercase form holds no pattern, whose name is not hidden
/// and that is no system file is not excluded.
pub proof fn lemma_exclusion_rules(path: Seq<char>, k: int)
    requires
        0 <= k < exclusion_patterns().len(),
    ensures
        has_infix(lower_of(path), exclusion_patterns()[k]) ==> excluded(path),
        !matches_exclusion(lower_of(path))
            && !(match file_name_of(path) { Some(n) => is_hidden_name(n), None => false })
            && !has_suffix(lower_of(path), ".sys"@)
            && !has_suffix(lower_of(path), ".dll"@)
            && !has_suffix(lower_of(path), ".tmp"@) ==> !excluded(path),
{
}

} // verus!
