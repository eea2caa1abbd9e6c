//! A bounded linear undo/redo history of canvas snapshots.
//!
//! The history holds at most five snapshots and a one-based cursor into
//! them; the canvas the editor shows is always the snapshot under the
//! cursor. Committing while the cursor sits at the capacity evicts the
//! oldest snapshot; committing with redo steps ahead discards them first.
//! Undo and redo only move the cursor and never touch pixel data, so an
//! undo followed by a redo restores the canvas byte for byte.

use vstd::prelude::*;
use crate::canvas::Canvas;

verus! {

/// How many snapshots the history keeps at most.
pub const HISTORY_CAPACITY: usize = 5;

/// A capacity-bounded sequence of snapshots with a one-based cursor.
pub struct EditHistory {
    pub snapshots: Vec<Canvas>,
    pub cursor: usize,
}

/// The history after an undo: the cursor steps back if it can.
pub open spec fn undo_spec(h: EditHistory) -> EditHistory {
    if h.cursor > 1 {
        EditHistory { snapshots: h.snapshots, cursor: (h.cursor - 1) as usize }
    } else {
        h
    }
}

/// The history after a redo: the cursor steps forward if it can.
pub open spec fn redo_spec(h: EditHistory) -> EditHistory {
    if h.cursor < h.snapshots@.len() {
        EditHistory { snapshots: h.snapshots, cursor: (h.cursor + 1) as usize }
    } else {
        h
    }
}

/// What one commit does to the history: any redo steps ahead of the
/// cursor are discarded, the oldest snapshot is evicted when the history
/// is full, and the cursor ends on the new snapshot.
pub open spec fn commit_post(pre: EditHistory, post: EditHistory, c: Canvas) -> bool {
    &&& post.cursor == post.snapshots@.len()
    &&& post.current_spec() == c
    &&& pre.cursor == HISTORY_CAPACITY ==> post.snapshots@ == pre.snapshots@.subrange(
        1,
        HISTORY_CAPACITY as int,
    ).push(c) && post.cursor == HISTORY_CAPACITY
    &&& pre.cursor < HISTORY_CAPACITY ==> post.snapshots@ == pre.snapshots@.subrange(
        0,
        pre.cursor as int,
    ).push(c) && post.cursor == pre.cursor + 1
}

impl EditHistory {
    /// The bound that every operation preserves: the history is never empty,
    /// never holds more than the capacity, the cursor points at a snapshot,
    /// and every snapshot is a well-formed canvas.
    pub open spec fn wf(self) -> bool {
        &&& 1 <= self.cursor <= self.snapshots@.len() <= HISTORY_CAPACITY
        &&& forall|i: int| 0 <= i < self.snapshots@.len() ==> (#[trigger] self.snapshots@[i]).wf()
    }

    /// The snapshot the cursor points at.
    pub open spec fn current_spec(self) -> Canvas {
        self.snapshots@[self.cursor - 1]
    }

    /// A fresh history seeded with the captured canvas.
    pub fn new(first: Canvas) -> (h: EditHistory)
        requires
            first.wf(),
        ensures
            h.wf(),
            h.snapshots@ == seq![first],
            h.cursor == 1,
    {
        let mut snapshots: Vec<Canvas> = Vec::new();
        snapshots.push(first);
        proof {
            assert(snapshots@ =~= seq![first]);
        }
        EditHistory { snapshots, cursor: 1 }
    }

    pub fn len(&self) -> (n: usize)
        ensures
            n == self.snapshots@.len(),
    {
        self.snapshots.len()
    }

    pub fn cursor(&self) -> (c: usize)
        ensures
            c == self.cursor,
    {
        self.cursor
    }

    /// The canvas the editor currently shows.
    pub fn current(&self) -> (c: &Canvas)
        requires
            self.wf(),
        ensures
            *c == self.current_spec(),
            c.wf(),
    {
        &self.snapshots[self.cursor - 1]
    }

    /// Commits an edited canvas: discards any redo steps ahead of the
    /// cursor, evicts the oldest snapshot when the history is full, and
    /// leaves the cursor on the new snapshot.
    pub fn commit(&mut self, c: Canvas)
        requires
            old(self).wf(),
            c.wf(),
        ensures
            final(self).wf(),
            commit_post(*old(self), *final(self), c),
            final(self).cursor == final(self).snapshots@.len(),
            final(self).current_spec() == c,
            old(self).cursor == HISTORY_CAPACITY ==> final(self).snapshots@ == old(
                self,
            ).snapshots@.subrange(1, HISTORY_CAPACITY as int).push(c) && final(self).cursor
                == HISTORY_CAPACITY,
            old(self).cursor < HISTORY_CAPACITY ==> final(self).snapshots@ == old(
                self,
            ).snapshots@.subrange(0, old(self).cursor as int).push(c) && final(self).cursor == old(
                self,
            ).cursor + 1,
    {
        if self.cursor == HISTORY_CAPACITY {
            self.snapshots.remove(0);
            self.snapshots.push(c);
            proof {
                assert(self.snapshots@ =~= old(self).snapshots@.subrange(
                    1,
                    HISTORY_CAPACITY as int,
                ).push(c));
            }
        } else {
            self.snapshots.truncate(self.cursor);
            self.snapshots.push(c);
            self.cursor = self.cursor + 1;
        }
    }

    /// Steps the cursor back one snapshot; at the oldest snapshot it is a
    /// no-op. Snapshots are never touched.
    pub fn undo(&mut self) -> (moved: bool)
        requires
            old(self).wf(),
        ensures
            final(self).wf(),
            *final(self) == undo_spec(*old(self)),
            moved == (old(self).cursor > 1),
    {
        if self.cursor > 1 {
            self.cursor = self.cursor - 1;
            true
        } else {
            false
        }
    }

    /// Steps the cursor forward one snapshot; at the newest snapshot it is
    /// a no-op. Snapshots are never touched.
    pub fn redo(&mut self) -> (moved: bool)
        requires
            old(self).wf(),
        ensures
            final(self).wf(),
            *final(self) == redo_spec(*old(self)),
            moved == (old(self).cursor < old(self).snapshots@.len()),
    {
        if self.cursor < self.snapshots.len() {
            self.cursor = self.cursor + 1;
            true
        } else {
            false
        }
    }
}

/// Undo followed by redo restores the history exactly — cursor and every
/// snapshot, hence the pixel content of the shown canvas — whenever the
/// undo had an effect; when it had none, both calls leave the history as
/// it was.
pub proof fn lemma_undo_redo_round_trip(h: EditHistory)
    requires
        h.wf(),
    ensures
        h.cursor > 1 ==> redo_spec(undo_spec(h)) == h,
        h.cursor > 1 ==> redo_spec(undo_spec(h)).current_spec().pixels@
            == h.current_spec().pixels@,
        h.cursor == 1 ==> undo_spec(h) == h,
{
}

/// The history never holds more than the capacity of five snapshots, and
/// its cursor always points at one of them.
pub proof fn lemma_history_bounded(h: EditHistory)
    requires
        h.wf(),
    ensures
        1 <= h.snapshots@.len() <= HISTORY_CAPACITY,
        1 <= h.cursor <= h.snapshots@.len(),
{
}

/// Six commits into a fresh one-snapshot history fill it to its capacity
/// of five and evict the seed and the first committed snapshot: what
/// remains is exactly the last five committed canvases in order, with
/// the cursor on the newest.
pub proof fn lemma_six_commits(
    h0: EditHistory,
    h1: EditHistory,
    h2: EditHistory,
    h3: EditHistory,
    h4: EditHistory,
    h5: EditHistory,
    h6: EditHistory,
    s0: Canvas,
    c1: Canvas,
    c2: Canvas,
    c3: Canvas,
    c4: Canvas,
    c5: Canvas,
    c6: Canvas,
)
    requires
        h0.cursor == 1,
        h0.snapshots@ == seq![s0],
        commit_post(h0, h1, c1),
        commit_post(h1, h2, c2),
        commit_post(h2, h3, c3),
        commit_post(h3, h4, c4),
        commit_post(h4, h5, c5),
        commit_post(h5, h6, c6),
    ensures
        h6.snapshots@ == seq![c2, c3, c4, c5, c6],
        h6.cursor == HISTORY_CAPACITY,
{
    assert(h1.snapshots@ =~= seq![s0, c1]);
    assert(h2.snapshots@ =~= seq![s0, c1, c2]);
    assert(h3.snapshots@ =~= seq![s0, c1, c2, c3]);
    assert(h4.snapshots@ =~= seq![s0, c1, c2, c3, c4]);
    assert(h5.snapshots@ =~= seq![c1, c2, c3, c4, c5]);
    assert(h6.snapshots@ =~= seq![c2, c3, c4, c5, c6]);
}

/// Redo followed by undo likewise restores the history exactly whenever
/// the redo had an effect.
pub proof fn lemma_redo_undo_round_trip(h: EditHistory)
    requires
        h.wf(),
    ensures
        h.cursor < h.snapshots@.len() ==> undo_spec(redo_spec(h)) == h,
{
}

} // verus!
