//! Posting lists: maps from a lowercase key to the pool positions that carry
//! it, held in `ahash`'s map, and the parallel scans over keys and paths.

use ahash::AHashMap;
use rayon::iter::{IndexedParallelIterator, IntoParallelRefIterator, ParallelIterator};
use vstd::prelude::*;
use crate::text::{contains_text, ends_with_text, has_infix, has_suffix, lower_of, lowercase};

verus! {

#[verifier::external_type_specification]
#[verifier::external_body]
#[verifier::reject_recursive_types(K)]
#[verifier::reject_recursive_types(V)]
#[verifier::reject_recursive_types(S)]
pub struct ExAHashMap<K, V, S>(AHashMap<K, V, S>);

#[verifier::external_type_specification]
#[verifier::external_body]
pub struct ExRandomState(ahash::RandomState);

/// What a posting map holds: each key with its list of positions.
pub uninterp spec fn posting_lists(m: AHashMap<String, Vec<u32>>) -> Map<Seq<char>, Seq<u32>>;

/// The posting map with no key.
pub open spec fn no_postings() -> Map<Seq<char>, Seq<u32>> {
    Map::empty()
}

/// The list under `k`, or the empty list where `k` has none.
pub open spec fn list_or_empty(m: Map<Seq<char>, Seq<u32>>, k: Seq<char>) -> Seq<u32> {
    if m.contains_key(k) { m[k] } else { Seq::empty() }
}

/// `m` with `i` appended to the list under `k`.
pub open spec fn add_posting(m: Map<Seq<char>, Seq<u32>>, k: Seq<char>, i: u32) -> Map<Seq<char>, Seq<u32>> {
    m.insert(k, list_or_empty(m, k).push(i))
}

/// Relies on `AHashMap::new`: a map with no entry.
#[verifier::external_body]
pub(crate) fn new_postings() -> (r: AHashMap<String, Vec<u32>>)
    ensures
        posting_lists(r) == no_postings(),
{
    AHashMap::new()
}

/// Relies on `HashMap::entry(k).or_default()` through `AHashMap`'s deref:
/// the list under `k`, created empty when absent, then `Vec::push`.
#[verifier::external_body]
pub(crate) fn push_posting(m: &mut AHashMap<String, Vec<u32>>, k: String, i: u32)
    ensures
        posting_lists(*final(m)) == add_posting(posting_lists(*old(m)), k@, i),
{
    m.entry(k).or_default().push(i);
}

/// Relies on `HashMap::get` through `AHashMap`'s deref: the list stored
/// under `k`, if any.
#[verifier::external_body]
pub(crate) fn get_postings<'a>(m: &'a AHashMap<String, Vec<u32>>, k: &str) -> (r: Option<&'a Vec<u32>>)
    ensures
        match r {
            Some(v) => posting_lists(*m).contains_key(k@) && posting_lists(*m)[k@] == v@,
            None => !posting_lists(*m).contains_key(k@),
        },
{
    m.get(k)
}

/// Relies on `HashMap::keys` through `AHashMap`'s deref: every key once, in
/// an order that the map's hasher decides.
#[verifier::external_body]
pub(crate) fn posting_keys(m: &AHashMap<String, Vec<u32>>) -> (r: Vec<String>)
    ensures
        forall|j: int| 0 <= j < r@.len() ==> posting_lists(*m).contains_key(#[trigger] r@[j]@),
        forall|k: Seq<char>| #[trigger] posting_lists(*m).contains_key(k)
            ==> exists|j: int| 0 <= j < r@.len() && r@[j]@ == k,
        forall|a: int, b: int| 0 <= a < b < r@.len() ==> r@[a]@ != r@[b]@,
{
    m.keys().cloned().collect()
}

/// `es` lists the entries of `m`: each key once, with its list.
pub open spec fn lists_entries(m: Map<Seq<char>, Seq<u32>>, es: Seq<(Seq<char>, Seq<u32>)>) -> bool {
    &&& forall|j: int| 0 <= j < es.len() ==> m.contains_key(#[trigger] es[j].0) && m[es[j].0] == es[j].1
    &&& forall|k: Seq<char>| #[trigger] m.contains_key(k) ==> exists|j: int| 0 <= j < es.len() && es[j].0 == k
    &&& forall|a: int, b: int| 0 <= a < b < es.len() ==> es[a].0 != es[b].0
}

/// The texts of a sequence of posting entries.
pub open spec fn entry_texts(es: Seq<(String, Vec<u32>)>) -> Seq<(Seq<char>, Seq<u32>)> {
    es.map_values(|e: (String, Vec<u32>)| (e.0@, e.1@))
}

/// The entries of a posting map, each key once, in the map's own order.
pub fn posting_entries(m: &AHashMap<String, Vec<u32>>) -> (r: Vec<(String, Vec<u32>)>)
    ensures
        lists_entries(posting_lists(*m), entry_texts(r@)),
{
    let keys = posting_keys(m);
    let mut r: Vec<(String, Vec<u32>)> = Vec::new();
    let mut j: usize = 0;
    while j < keys.len()
        invariant
            j <= keys@.len(),
            r@.len() == j,
            forall|t: int| 0 <= t < keys@.len() ==> posting_lists(*m).contains_key(#[trigger] keys@[t]@),
            forall|t: int| 0 <= t < j ==> (#[trigger] r@[t]).0@ == keys@[t]@
                && posting_lists(*m)[keys@[t]@] == r@[t].1@,
        decreases keys@.len() - j,
    {
        let k = &keys[j];
        assert(posting_lists(*m).contains_key(keys@[j as int]@));
        match get_postings(m, k.as_str()) {
            Some(list) => {
                r.push((k.clone(), list.clone()));
            },
            None => {
                r.push((k.clone(), Vec::new()));
            },
        }
        j += 1;
    }
    proof {
        let es = entry_texts(r@);
        assert forall|t: int| 0 <= t < es.len() implies (#[trigger] es[t]).0 == keys@[t]@ && es[t].1 == r@[t].1@ by {}
        assert forall|k: Seq<char>| #[trigger] posting_lists(*m).contains_key(k)
            implies exists|t: int| 0 <= t < es.len() && es[t].0 == k by {
            let t = choose|t: int| 0 <= t < keys@.len() && keys@[t]@ == k;
            assert(es[t].0 == k);
        }
        assert forall|a: int, b: int| 0 <= a < b < es.len() implies es[a].0 != es[b].0 by {
            assert(es[a].0 == keys@[a]@);
            assert(es[b].0 == keys@[b]@);
        }
    }
    r
}

/// Whether `q` occurs in the key `k`.
pub fn key_contains(k: &String, q: &str) -> (r: bool)
    ensures
        r == has_infix(k@, q@),
{
    contains_text(k.as_str(), q)
}

/// Whether the lowercase form of the path `p` ends with `q`.
pub fn lower_path_ends_with(p: &String, q: &str) -> (r: bool)
    ensures
        r == has_suffix(lower_of(p@), q@),
{
    let l = lowercase(p.as_str());
    ends_with_text(l.as_str(), q)
}

/// Relies on rayon's `par_iter().enumerate().filter(..).map(..).collect()`
/// over a slice: the positions whose item passes the filter, each once.
#[verifier::external_body]
pub(crate) fn keys_containing(keys: &Vec<String>, q: &str) -> (r: Vec<usize>)
    ensures
        forall|j: int| 0 <= j < r@.len() ==> #[trigger] r@[j] < keys@.len() && has_infix(keys@[r@[j] as int]@, q@),
        forall|t: int| 0 <= t < keys@.len() && has_infix(#[trigger] keys@[t]@, q@) ==> r@.contains(t as usize),
        r@.no_duplicates(),
{
    keys.par_iter().enumerate().filter(|(_, k)| key_contains(k, q)).map(|(i, _)| i).collect()
}

/// Relies on rayon's `par_iter().enumerate().filter(..).map(..).collect()`
/// over a slice: the positions whose item passes the filter, each once.
#[verifier::external_body]
pub(crate) fn paths_ending_with(paths: &Vec<String>, q: &str) -> (r: Vec<usize>)
    ensures
        forall|j: int| 0 <= j < r@.len() ==> #[trigger] r@[j] < paths@.len() && has_suffix(lower_of(paths@[r@[j] as int]@), q@),
        forall|t: int| 0 <= t < paths@.len() && has_suffix(lower_of(#[trigger] paths@[t]@), q@) ==> r@.contains(t as usize),
        r@.no_duplicates(),
{
    paths.par_iter().enumerate().filter(|(_, p)| lower_path_ends_with(p, q)).map(|(i, _)| i).collect()
}

} // verus!
