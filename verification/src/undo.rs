//! Bounded undo/redo history of document snapshots.
//!
//! A snapshot is the serialized document together with the sketch that was
//! active at the time; serializing and restoring documents is the caller's
//! part, the history only keeps and hands back the bytes.

use vstd::prelude::*;

use crate::ids::FeatureId;

verus! {

/// The most undo steps the history keeps.
pub const MAX_UNDO: usize = 50;

/// The contents of a snapshot: document bytes and the active sketch.
pub type SnapshotView = (Seq<u8>, Option<FeatureId>);

/// Both stacks of the history, oldest entry first.
pub struct UndoView {
    pub undo: Seq<SnapshotView>,
    pub redo: Seq<SnapshotView>,
}

pub open spec fn snapshot_view(s: (Vec<u8>, Option<FeatureId>)) -> SnapshotView {
    (s.0@, s.1)
}

/// The present state handed to `undo`/`redo`, when it could be serialized.
pub open spec fn current_view(current: Option<Vec<u8>>, active: Option<FeatureId>) -> Option<
    SnapshotView,
> {
    match current {
        Some(c) => Some((c@, active)),
        None => None,
    }
}

/// History after recording `s`: it goes on top of the undo stack, the
/// oldest entry is dropped beyond `MAX_UNDO` entries, and the redo stack is
/// emptied.
pub open spec fn after_push(v: UndoView, s: SnapshotView) -> UndoView {
    let u = v.undo.push(s);
    UndoView {
        undo: if u.len() > MAX_UNDO {
            u.drop_first()
        } else {
            u
        },
        redo: seq![],
    }
}

/// What an undo hands back: the top of the undo stack.
pub open spec fn undo_result(v: UndoView) -> Option<SnapshotView> {
    if v.undo.len() == 0 {
        None
    } else {
        Some(v.undo.last())
    }
}

/// History after an undo: the top of the undo stack is taken off and the
/// current state (when it could be serialized) goes on the redo stack.
/// Nothing changes when there is nothing to undo.
pub open spec fn after_undo(v: UndoView, current: Option<SnapshotView>) -> UndoView {
    if v.undo.len() == 0 {
        v
    } else {
        UndoView {
            undo: v.undo.drop_last(),
            redo: match current {
                Some(c) => v.redo.push(c),
                None => v.redo,
            },
        }
    }
}

/// What a redo hands back: the top of the redo stack.
pub open spec fn redo_result(v: UndoView) -> Option<SnapshotView> {
    if v.redo.len() == 0 {
        None
    } else {
        Some(v.redo.last())
    }
}

/// History after a redo: the mirror image of `after_undo`.
pub open spec fn after_redo(v: UndoView, current: Option<SnapshotView>) -> UndoView {
    if v.redo.len() == 0 {
        v
    } else {
        UndoView {
            undo: match current {
                Some(c) => v.undo.push(c),
                None => v.undo,
            },
            redo: v.redo.drop_last(),
        }
    }
}

pub struct UndoManager {
    undo_stack: Vec<(Vec<u8>, Option<FeatureId>)>,
    redo_stack: Vec<(Vec<u8>, Option<FeatureId>)>,
}

impl View for UndoManager {
    type V = UndoView;

    closed spec fn view(&self) -> UndoView {
        UndoView {
            undo: self.undo_stack@.map_values(|s: (Vec<u8>, Option<FeatureId>)| snapshot_view(s)),
            redo: self.redo_stack@.map_values(|s: (Vec<u8>, Option<FeatureId>)| snapshot_view(s)),
        }
    }
}

impl UndoManager {
    /// An empty history.
    pub fn new() -> (m: Self)
        ensures
            m@.undo.len() == 0,
            m@.redo.len() == 0,
    {
        UndoManager { undo_stack: Vec::new(), redo_stack: Vec::new() }
    }

    /// Record the state before a change (`data` is the serialized document).
    pub fn push_snapshot(&mut self, data: Vec<u8>, active: Option<FeatureId>)
        ensures
            final(self)@ == after_push(old(self)@, (data@, active)),
    {
        self.undo_stack.push((data, active));
        self.redo_stack.clear();
        if self.undo_stack.len() > MAX_UNDO {
            self.undo_stack.remove(0);
        }
        proof {
            assert(self@.undo =~= after_push(old(self)@, (data@, active)).undo);
            assert(self@.redo =~= after_push(old(self)@, (data@, active)).redo);
        }
    }

    pub fn can_undo(&self) -> (b: bool)
        ensures
            b == (self@.undo.len() > 0),
    {
        self.undo_stack.len() > 0
    }

    pub fn can_redo(&self) -> (b: bool)
        ensures
            b == (self@.redo.len() > 0),
    {
        self.redo_stack.len() > 0
    }

    /// Number of entries on the undo stack.
    pub fn undo_len(&self) -> (n: usize)
        ensures
            n == self@.undo.len(),
    {
        self.undo_stack.len()
    }

    /// Drop all undo/redo history. Used when the document is replaced
    /// wholesale (project load).
    pub fn clear(&mut self)
        ensures
            final(self)@.undo.len() == 0,
            final(self)@.redo.len() == 0,
    {
        self.undo_stack.clear();
        self.redo_stack.clear();
    }

    /// Step back: hand out the most recent snapshot, keeping `current` (the
    /// serialized present state, when it could be serialized) for redo.
    pub fn undo(&mut self, current: Option<Vec<u8>>, current_active: Option<FeatureId>) -> (r:
        Option<(Vec<u8>, Option<FeatureId>)>)
        ensures
            r matches Some(s) ==> undo_result(old(self)@) == Some(snapshot_view(s)),
            r is None ==> undo_result(old(self)@) is None,
            final(self)@ == after_undo(old(self)@, current_view(current, current_active)),
    {
        let ghost v0 = self@;
        let ghost cur = current_view(current, current_active);
        let top = match self.undo_stack.pop() {
            Some(t) => t,
            None => return None,
        };
        if let Some(data) = current {
            self.redo_stack.push((data, current_active));
        }
        proof {
            assert(self@.undo =~= after_undo(v0, cur).undo);
            assert(self@.redo =~= after_undo(v0, cur).redo);
        }
        Some(top)
    }

    /// Step forward again: the mirror image of `undo`.
    pub fn redo(&mut self, current: Option<Vec<u8>>, current_active: Option<FeatureId>) -> (r:
        Option<(Vec<u8>, Option<FeatureId>)>)
        ensures
            r matches Some(s) ==> redo_result(old(self)@) == Some(snapshot_view(s)),
            r is None ==> redo_result(old(self)@) is None,
            final(self)@ == after_redo(old(self)@, current_view(current, current_active)),
    {
        let ghost v0 = self@;
        let ghost cur = current_view(current, current_active);
        let top = match self.redo_stack.pop() {
            Some(t) => t,
            None => return None,
        };
        if let Some(data) = current {
            self.undo_stack.push((data, current_active));
        }
        proof {
            assert(self@.undo =~= after_redo(v0, cur).undo);
            assert(self@.redo =~= after_redo(v0, cur).redo);
        }
        Some(top)
    }

    /// Drop the most recent snapshot, but only when exactly one snapshot was
    /// recorded since the undo stack had `expected_before_len` entries.
    /// Returns whether it was dropped.
    pub fn discard_snapshot(&mut self, expected_before_len: usize) -> (dropped: bool)
        ensures
            dropped == (old(self)@.undo.len() == expected_before_len + 1),
            dropped ==> final(self)@.undo == old(self)@.undo.drop_last(),
            !dropped ==> final(self)@.undo == old(self)@.undo,
            final(self)@.redo == old(self)@.redo,
    {
        let ghost v0 = self@;
        let n = self.undo_stack.len();
        if expected_before_len < usize::MAX && n == expected_before_len + 1 {
            self.undo_stack.pop();
            assert(self@.undo =~= v0.undo.drop_last());
            true
        } else {
            false
        }
    }
}

/// Undoing right after recording a snapshot hands that snapshot back.
pub proof fn lemma_undo_returns_last_push(v: UndoView, s: SnapshotView)
    ensures
        undo_result(after_push(v, s)) == Some(s),
{
}

/// Recording a snapshot empties the redo stack.
pub proof fn lemma_push_clears_redo(v: UndoView, s: SnapshotView)
    ensures
        after_push(v, s).redo.len() == 0,
        redo_result(after_push(v, s)) is None,
{
}

/// The undo history never grows beyond `MAX_UNDO` entries through
/// recording.
pub proof fn lemma_push_bounded(v: UndoView, s: SnapshotView)
    requires
        v.undo.len() <= MAX_UNDO,
    ensures
        after_push(v, s).undo.len() <= MAX_UNDO,
        after_push(v, s).undo.last() == s,
{
}

/// Undo followed by redo: the redo hands back the state that was current at
/// the undo, and when the state restored by the undo is recorded as current
/// for the redo, the history is exactly as before the undo.
pub proof fn lemma_undo_then_redo(v: UndoView, c: SnapshotView)
    requires
        v.undo.len() > 0,
    ensures
        redo_result(after_undo(v, Some(c))) == Some(c),
        after_redo(after_undo(v, Some(c)), undo_result(v)) == v,
{
    assert(after_redo(after_undo(v, Some(c)), undo_result(v)).undo =~= v.undo);
    assert(after_redo(after_undo(v, Some(c)), undo_result(v)).redo =~= v.redo);
}

/// The history holds at most `MAX_UNDO` snapshots, undo and redo stacks
/// together.
pub open spec fn within_limit(v: UndoView) -> bool {
    v.undo.len() + v.redo.len() <= MAX_UNDO
}

/// Every operation keeps the history within `MAX_UNDO` snapshots: recording
/// (which drops the oldest entry and the redo stack), undo and redo (which
/// move one entry between the stacks), and discarding the latest entry.
pub proof fn lemma_history_stays_bounded(v: UndoView, s: SnapshotView, current: Option<SnapshotView>)
    requires
        within_limit(v),
    ensures
        within_limit(after_push(v, s)),
        within_limit(after_undo(v, current)),
        within_limit(after_redo(v, current)),
        v.undo.len() > 0 ==> within_limit(UndoView { undo: v.undo.drop_last(), redo: v.redo }),
{
}

/// Recording keeps every earlier snapshot in order and puts the new one on
/// top. While the history has room nothing is lost; once it holds
/// `MAX_UNDO` snapshots, exactly the oldest one is dropped, so undoing
/// again and again hands back the recorded snapshots newest first.
pub proof fn lemma_push_drops_only_the_oldest(v: UndoView, s: SnapshotView)
    requires
        v.undo.len() <= MAX_UNDO,
    ensures
        v.undo.len() < MAX_UNDO ==> {
            &&& after_push(v, s).undo.len() == v.undo.len() + 1
            &&& forall|i: int| 0 <= i < v.undo.len() ==> after_push(v, s).undo[i] == v.undo[i]
        },
        v.undo.len() == MAX_UNDO ==> {
            &&& after_push(v, s).undo.len() == MAX_UNDO
            &&& forall|i: int|
                0 <= i < MAX_UNDO - 1 ==> after_push(v, s).undo[i] == #[trigger] v.undo[i + 1]
        },
        after_push(v, s).undo[after_push(v, s).undo.len() - 1] == s,
        after_push(v, s).redo.len() == 0,
{
}

/// Undo hands back the snapshots on the undo stack newest first: after `n`
/// undos (each with the present state at hand) the next undo hands back
/// the snapshot `n` places below the top, and the undo stack has lost
/// exactly its top `n` entries.
pub proof fn lemma_undos_walk_down_the_stack(v: UndoView, c: SnapshotView, n: nat)
    requires
        n < v.undo.len(),
    ensures
        undo_result(repeat_undo(v, c, n)) == Some(v.undo[v.undo.len() - 1 - n]),
        repeat_undo(v, c, n).undo == v.undo.take(v.undo.len() - n),
    decreases n,
{
    if n > 0 {
        lemma_undos_walk_down_the_stack(v, c, (n - 1) as nat);
        let w = repeat_undo(v, c, (n - 1) as nat);
        assert(w.undo.drop_last() =~= v.undo.take(v.undo.len() - n));
    } else {
        assert(v.undo.take(v.undo.len() as int) =~= v.undo);
    }
}

/// The history after `n` undos, each with the present state `c` at hand.
pub open spec fn repeat_undo(v: UndoView, c: SnapshotView, n: nat) -> UndoView
    decreases n,
{
    if n == 0 {
        v
    } else {
        after_undo(repeat_undo(v, c, (n - 1) as nat), Some(c))
    }
}

} // verus!
