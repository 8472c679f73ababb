//! The decisions of the background scanner: which walked paths to index,
//! how a batch enters the index, and which state follows a scan or a save.

use vstd::prelude::*;
use crate::error::{user_message_of, FlashFindError};
use crate::filter::{excluded, is_excluded};
use crate::index::{texts, valid_path, FileIndex, IndexView, MAX_INDEX_SIZE};

verus! {

/// Paths inserted under one hold of the writer lock.
pub const BATCH_SIZE: usize = 1000;

/// What the scanner is doing.
#[derive(Debug, Clone)]
pub enum IndexState {
    Idle,
    Scanning { progress: usize },
    Saving,
    Error { message: String },
}

/// A request to the scanner.
pub enum IndexCommand {
    StartScan(Vec<String>),
}

/// The outcome of a completed scan.
pub struct IndexResult {
    pub files_added: usize,
    pub duration_ms: u64,
}

/// The state after inserting each path of `ps` in turn.
pub open spec fn after_batch(v: IndexView, ps: Seq<Seq<char>>) -> IndexView
    decreases ps.len(),
{
    if ps.len() == 0 {
        v
    } else {
        after_batch(v, ps.drop_last()).after_insert(ps.last())
    }
}

/// Some path of `ps` with a file name meets a full pool.
pub open spec fn batch_fills(v: IndexView, ps: Seq<Seq<char>>) -> bool {
    exists|j: int| 0 <= j < ps.len() && valid_path(ps[j]) && #[trigger] after_batch(v, ps.subrange(0, j)).is_full()
}

proof fn lemma_full_stays(v: IndexView, ps: Seq<Seq<char>>, i: int, k: int)
    requires
        0 <= i <= k <= ps.len(),
        after_batch(v, ps.subrange(0, i)).is_full(),
    ensures
        after_batch(v, ps.subrange(0, k)) == after_batch(v, ps.subrange(0, i)),
    decreases k - i,
{
    if k > i {
        lemma_full_stays(v, ps, i, k - 1);
        assert(ps.subrange(0, k).drop_last() =~= ps.subrange(0, k - 1));
    }
}

/// The paths of a walk that the filter rules let into the index, in order.
pub fn select_indexable(entries: &Vec<String>) -> (r: Vec<String>)
    ensures
        texts(r@) == texts(entries@).filter(|p: Seq<char>| !excluded(p)),
{
    let mut r: Vec<String> = Vec::new();
    let mut i: usize = 0;
    while i < entries.len()
        invariant
            i <= entries@.len(),
            texts(r@) == texts(entries@.subrange(0, i as int)).filter(|p: Seq<char>| !excluded(p)),
        decreases entries@.len() - i,
    {
        let p = &entries[i];
        let ghost before = texts(entries@.subrange(0, i as int));
        proof {
            assert(texts(entries@.subrange(0, i + 1)) =~= before.push(p@));
            reveal(Seq::filter);
            assert(before.push(p@).drop_last() =~= before);
        }
        if !is_excluded(p.as_str()) {
            let ghost old_r = r@;
            r.push(p.clone());
            assert(texts(r@) =~= texts(old_r).push(p@));
        }
        i += 1;
    }
    assert(entries@.subrange(0, entries@.len() as int) =~= entries@);
    r
}

/// Inserts a batch of paths in order. Paths without a file name are
/// skipped and duplicates counted; the first path that meets a full pool
/// ends the batch with `IndexFull`. Otherwise the number of paths added.
pub fn insert_batch(index: &mut FileIndex, batch: &Vec<String>) -> (r: Result<usize, FlashFindError>)
    requires
        old(index).wf(),
    ensures
        final(index).wf(),
        final(index)@ == after_batch(old(index)@, texts(batch@)),
        batch_fills(old(index)@, texts(batch@)) ==> r == Err::<usize, FlashFindError>(FlashFindError::IndexFull(MAX_INDEX_SIZE)),
        !batch_fills(old(index)@, texts(batch@)) ==> r == Ok::<usize, FlashFindError>(
            (final(index)@.pool.len() - old(index)@.pool.len()) as usize),
{
    let ghost v = index@;
    let ghost ps = texts(batch@);
    let mut added: usize = 0;
    let mut i: usize = 0;
    while i < batch.len()
        invariant
            ps == texts(batch@),
            v == old(index)@,
            i <= batch@.len(),
            index.wf(),
            index@ == after_batch(v, ps.subrange(0, i as int)),
            index@.pool.len() == v.pool.len() + added,
            forall|j: int| 0 <= j < i && valid_path(ps[j]) ==> !(#[trigger] after_batch(v, ps.subrange(0, j)).is_full()),
        decreases batch@.len() - i,
    {
        let ghost before = index@;
        proof {
            assert(ps.subrange(0, i + 1).drop_last() =~= ps.subrange(0, i as int));
            assert(ps.subrange(0, i + 1).last() == batch@[i as int]@);
        }
        match index.insert(batch[i].clone()) {
            Ok(true) => {
                added = added + 1;
            },
            Ok(false) => {},
            Err(e) => {
                if let FlashFindError::IndexFull(_) = e {
                    proof {
                        assert(valid_path(ps[i as int]));
                        assert(before.is_full());
                        assert(index@ == before);
                        lemma_full_stays(v, ps, i as int, ps.len() as int);
                        assert(ps.subrange(0, ps.len() as int) =~= ps);
                        assert(index@ == after_batch(v, ps));
                        assert(batch_fills(v, ps));
                    }
                    return Err(e);
                }
            },
        }
        i += 1;
    }
    proof {
        assert(ps.subrange(0, ps.len() as int) =~= ps);
    }
    Ok(added)
}

/// The state after a scan: saving after a success, the error's user
/// message after a failure.
pub fn state_after_scan(r: &Result<IndexResult, FlashFindError>) -> (s: IndexState)
    ensures
        r is Ok ==> s is Saving,
        r matches Err(e) ==> (s matches IndexState::Error { message } && message@ == user_message_of(*e)),
{
    match r {
        Ok(_) => IndexState::Saving,
        Err(e) => IndexState::Error { message: e.user_message() },
    }
}

/// The state after the save that follows a scan: idle after a success, the
/// error's user message after a failure.
pub fn state_after_save(r: &Result<(), FlashFindError>) -> (s: IndexState)
    ensures
        r is Ok ==> s is Idle,
        r matches Err(e) ==> (s matches IndexState::Error { message } && message@ == user_message_of(*e)),
{
    match r {
        Ok(_) => IndexState::Idle,
        Err(e) => IndexState::Error { message: e.user_message() },
    }
}

} // verus!
