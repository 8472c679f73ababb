//! The decisions of the change watcher: which events touch the index and how
//! removals apply.

use vstd::prelude::*;
use crate::index::{texts, FileIndex, IndexView};

verus! {

/// The kinds of filesystem change that the watcher tells apart.
#[derive(Debug, Clone, Copy, PartialEq, Eq, Structural)]
pub enum ChangeKind {
    Create,
    Modify,
    Remove,
    Other,
}

/// What the watcher does with the paths of an event.
#[derive(Debug, Clone, Copy, PartialEq, Eq, Structural)]
pub enum ChangeAction {
    /// Check each path and insert the stable ones.
    Index,
    /// Remove each path from the index.
    Unindex,
    /// Nothing.
    Ignore,
}

/// Creations and modifications are indexed, removals unindexed, other
/// changes ignored.
pub fn action_for(kind: ChangeKind) -> (r: ChangeAction)
    ensures
        (kind == ChangeKind::Create || kind == ChangeKind::Modify) ==> r == ChangeAction::Index,
        kind == ChangeKind::Remove ==> r == ChangeAction::Unindex,
        kind == ChangeKind::Other ==> r == ChangeAction::Ignore,
{
    match kind {
        ChangeKind::Create => ChangeAction::Index,
        ChangeKind::Modify => ChangeAction::Index,
        ChangeKind::Remove => ChangeAction::Unindex,
        ChangeKind::Other => ChangeAction::Ignore,
    }
}

/// The present paths after removing each of `ps`.
pub open spec fn seen_without(seen: Set<Seq<char>>, ps: Seq<Seq<char>>) -> Set<Seq<char>> {
    seen.filter(|p: Seq<char>| !ps.contains(p))
}

/// Removes each path of a removal event from the index; the pool and the
/// postings stay. Returns how many of them were present.
pub fn apply_removals(index: &mut FileIndex, paths: &Vec<String>) -> (r: usize)
    requires
        old(index).wf(),
    ensures
        final(index).wf(),
        final(index)@ == (IndexView { seen: seen_without(old(index)@.seen, texts(paths@)), ..old(index)@ }),
        r <= paths@.len(),
{
    let ghost v = index@;
    let ghost ps = texts(paths@);
    let mut removed: usize = 0;
    let mut i: usize = 0;
    assert(seen_without(v.seen, ps.subrange(0, 0)) =~= v.seen);
    while i < paths.len()
        invariant
            v == old(index)@,
            ps == texts(paths@),
            i <= paths@.len(),
            removed <= i,
            index.wf(),
            index@ == (IndexView { seen: seen_without(v.seen, ps.subrange(0, i as int)), ..v }),
        decreases paths@.len() - i,
    {
        if let Ok(true) = index.remove(paths[i].as_str()) {
            removed = removed + 1;
        }
        proof {
            let a = ps.subrange(0, i as int);
            let b = ps.subrange(0, i + 1);
            assert(b =~= a.push(ps[i as int]));
            assert forall|p: Seq<char>| b.contains(p) <==> (a.contains(p) || p == ps[i as int]) by {
                if a.contains(p) {
                    let k = choose|k: int| 0 <= k < a.len() && a[k] == p;
                    assert(b[k] == p);
                }
                if p == ps[i as int] {
                    assert(b[i as int] == p);
                }
                if b.contains(p) && p != ps[i as int] {
                    let k = choose|k: int| 0 <= k < b.len() && b[k] == p;
                    assert(a[k] == p);
                }
            }
            assert(index@.seen =~= seen_without(v.seen, b));
        }
        i += 1;
    }
    assert(ps.subrange(0, ps.len() as int) =~= ps);
    removed
}

} // verus!
