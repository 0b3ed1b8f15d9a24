//! Undo and redo over full level snapshots, with coalescing by label.

use vstd::prelude::*;
use crate::level::{Level, LevelView, LightId};
use crate::movement::WaypointId;

verus! {

/// Names "the same logical edit", so that consecutive edits of one kind on
/// one target share a history entry.
#[derive(Debug, Clone, Copy, PartialEq, Eq, Structural)]
pub enum HistoryLabel {
    Unknown,
    NewLight,
    Paste,
    DeleteLight(LightId),
    MoveLight(LightId),
    ToggleDanger(LightId),
    FadeIn(LightId),
    FadeOut(LightId),
    Flip(LightId),
    NewWaypoint(LightId),
    DeleteWaypoint(LightId, WaypointId),
    MoveWaypoint(LightId, WaypointId),
    MoveWaypointTime(LightId, WaypointId),
    RotateWaypoint(LightId, WaypointId),
}

/// The level as it was before each closed or open entry, and the levels
/// that undo has stepped back from.
#[derive(Debug)]
pub struct History {
    pub undo_stack: Vec<Level>,
    pub redo_stack: Vec<Level>,
    /// Label of the entry that is still open for coalescing.
    pub open: Option<HistoryLabel>,
}

pub struct HistoryView {
    pub undo: Seq<LevelView>,
    pub redo: Seq<LevelView>,
    pub open: Option<HistoryLabel>,
}

impl View for History {
    type V = HistoryView;

    open spec fn view(&self) -> HistoryView {
        HistoryView {
            undo: self.undo_stack@.map_values(|l: Level| l@),
            redo: self.redo_stack@.map_values(|l: Level| l@),
            open: self.open,
        }
    }
}

/// The history after an edit took the level from `before` to `after`: an
/// edit that changed nothing leaves no trace, one with the label of the open
/// entry joins it, and any other opens a new entry and drops the redo stack.
pub open spec fn record(
    h: HistoryView,
    before: LevelView,
    after: LevelView,
    label: HistoryLabel,
) -> HistoryView {
    if before == after {
        h
    } else if h.open == Some(label) {
        h
    } else {
        HistoryView { undo: h.undo.push(before), redo: Seq::empty(), open: Some(label) }
    }
}

/// Every stored level is valid.
pub open spec fn history_valid(h: HistoryView) -> bool {
    &&& forall|i: int| 0 <= i < h.undo.len() ==> (#[trigger] h.undo[i]).valid()
    &&& forall|i: int| 0 <= i < h.redo.len() ==> (#[trigger] h.redo[i]).valid()
}

/// Recording, undo and redo keep every stored level and the live one valid.
pub proof fn lemma_history_valid(h: HistoryView, cur: LevelView, after: LevelView, label: HistoryLabel)
    requires
        history_valid(h),
        cur.valid(),
    ensures
        after.valid() ==> history_valid(record(h, cur, after, label)),
        history_valid(undo(h, cur).0) && undo(h, cur).1.valid(),
        history_valid(redo(h, cur).0) && redo(h, cur).1.valid(),
        history_valid(flush(h)),
{
    if h.undo.len() > 0 {
        assert(h.undo[h.undo.len() - 1].valid());
    }
    if h.redo.len() > 0 {
        assert(h.redo[h.redo.len() - 1].valid());
    }
    let r = record(h, cur, after, label);
    assert forall|i: int| 0 <= i < r.undo.len() implies (#[trigger] r.undo[i]).valid() by {
        if i < h.undo.len() {
            assert(r.undo[i] == h.undo[i]);
        }
    }
    let u = undo(h, cur).0;
    assert forall|i: int| 0 <= i < u.redo.len() implies (#[trigger] u.redo[i]).valid() by {
        if i < h.redo.len() {
            assert(u.redo[i] == h.redo[i]);
        }
    }
    assert forall|i: int| 0 <= i < u.undo.len() implies (#[trigger] u.undo[i]).valid() by {
        assert(u.undo[i] == h.undo[i]);
    }
    let v = redo(h, cur).0;
    assert forall|i: int| 0 <= i < v.undo.len() implies (#[trigger] v.undo[i]).valid() by {
        if i < h.undo.len() {
            assert(v.undo[i] == h.undo[i]);
        }
    }
    assert forall|i: int| 0 <= i < v.redo.len() implies (#[trigger] v.redo[i]).valid() by {
        assert(v.redo[i] == h.redo[i]);
    }
}

/// Closes the open entry.
pub open spec fn flush(h: HistoryView) -> HistoryView {
    HistoryView { open: None, ..h }
}

/// Steps back one entry from the live level `cur`.
pub open spec fn undo(h: HistoryView, cur: LevelView) -> (HistoryView, LevelView) {
    if h.undo.len() == 0 {
        (flush(h), cur)
    } else {
        (
            HistoryView { undo: h.undo.drop_last(), redo: h.redo.push(cur), open: None },
            h.undo.last(),
        )
    }
}

/// Steps forward one entry from the live level `cur`.
pub open spec fn redo(h: HistoryView, cur: LevelView) -> (HistoryView, LevelView) {
    if h.redo.len() == 0 {
        (flush(h), cur)
    } else {
        (
            HistoryView { undo: h.undo.push(cur), redo: h.redo.drop_last(), open: None },
            h.redo.last(),
        )
    }
}

/// Records the edits `levels[k] -> levels[k + 1]` under `labels[k]`, for `k < n`.
pub open spec fn record_all(
    h: HistoryView,
    levels: Seq<LevelView>,
    labels: Seq<HistoryLabel>,
    n: nat,
) -> HistoryView
    decreases n,
{
    if n == 0 {
        h
    } else {
        record(
            record_all(h, levels, labels, (n - 1) as nat),
            levels[n - 1],
            levels[n as int],
            labels[n - 1],
        )
    }
}

/// Undo applied `n` times.
pub open spec fn undo_times(h: HistoryView, cur: LevelView, n: nat) -> (HistoryView, LevelView)
    decreases n,
{
    if n == 0 {
        (h, cur)
    } else {
        let p = undo_times(h, cur, (n - 1) as nat);
        undo(p.0, p.1)
    }
}

/// Redo applied `n` times.
pub open spec fn redo_times(h: HistoryView, cur: LevelView, n: nat) -> (HistoryView, LevelView)
    decreases n,
{
    if n == 0 {
        (h, cur)
    } else {
        let p = redo(h, cur);
        redo_times(p.0, p.1, (n - 1) as nat)
    }
}

impl History {
    pub fn new() -> (r: History)
        ensures
            r@.undo.len() == 0,
            r@.redo.len() == 0,
            r@.open is None,
    {
        History { undo_stack: Vec::new(), redo_stack: Vec::new(), open: None }
    }

    /// Records an edit that took the level from `before` to `after`.
    pub fn save(&mut self, before: Level, after: &Level, label: HistoryLabel)
        ensures
            final(self)@ == record(old(self)@, before@, after@, label),
    {
        if before.same_as(after) {
            return;
        }
        if self.open == Some(label) {
            return;
        }
        let ghost old_undo = self@.undo;
        self.undo_stack.push(before);
        self.redo_stack = Vec::new();
        self.open = Some(label);
        assert(self@.undo =~= old_undo.push(before@));
        assert(self@.redo =~= Seq::<LevelView>::empty());
    }

    /// Closes the open entry, so that the next edit starts a new one.
    pub fn flush(&mut self)
        ensures
            final(self)@ == flush(old(self)@),
    {
        self.open = None;
    }

    /// Restores the level from before the latest entry.
    pub fn undo(&mut self, level: &mut Level)
        ensures
            (final(self)@, final(level)@) == undo(old(self)@, old(level)@),
    {
        self.open = None;
        match self.undo_stack.pop() {
            Some(prev) => {
                let mut cur = prev;
                std::mem::swap(level, &mut cur);
                let ghost old_redo = self@.redo;
                self.redo_stack.push(cur);
                assert(self@.redo =~= old_redo.push(cur@));
                assert(self@.undo =~= old(self)@.undo.drop_last());
            },
            None => {},
        }
    }

    /// Restores the level that the latest undo stepped back from.
    pub fn redo(&mut self, level: &mut Level)
        ensures
            (final(self)@, final(level)@) == redo(old(self)@, old(level)@),
    {
        self.open = None;
        match self.redo_stack.pop() {
            Some(next) => {
                let mut cur = next;
                std::mem::swap(level, &mut cur);
                let ghost old_undo = self@.undo;
                self.undo_stack.push(cur);
                assert(self@.undo =~= old_undo.push(cur@));
                assert(self@.redo =~= old(self)@.redo.drop_last());
            },
            None => {},
        }
    }
}

proof fn lemma_record_all(h: HistoryView, levels: Seq<LevelView>, labels: Seq<HistoryLabel>, n: nat)
    requires
        n < levels.len(),
        n <= labels.len(),
        n > 0 ==> h.open != Some(labels[0]),
        forall|k: int| 0 < k < n ==> #[trigger] labels[k] != labels[k - 1],
        forall|k: int| 0 <= k < n ==> #[trigger] levels[k] != levels[k + 1],
    ensures
        record_all(h, levels, labels, n).undo == h.undo + levels.subrange(0, n as int),
        n > 0 ==> record_all(h, levels, labels, n).open == Some(labels[n - 1]),
        n > 0 ==> record_all(h, levels, labels, n).redo.len() == 0,
    decreases n,
{
    if n > 0 {
        lemma_record_all(h, levels, labels, (n - 1) as nat);
        assert(levels.subrange(0, n as int) =~= levels.subrange(0, n - 1).push(levels[n - 1]));
        assert(h.undo + levels.subrange(0, n as int) =~= (h.undo + levels.subrange(0, n - 1)).push(
            levels[n - 1],
        ));
    } else {
        assert(h.undo + levels.subrange(0, 0) =~= h.undo);
    }
}

proof fn lemma_undo_times(h: HistoryView, cur: LevelView, m: nat)
    requires
        1 <= m <= h.undo.len(),
    ensures
        undo_times(h, cur, m).1 == h.undo[h.undo.len() - m],
        undo_times(h, cur, m).0.undo == h.undo.subrange(0, h.undo.len() - m),
        undo_times(h, cur, m).0.open is None,
    decreases m,
{
    if m > 1 {
        lemma_undo_times(h, cur, (m - 1) as nat);
        let p = undo_times(h, cur, (m - 1) as nat);
        assert(p.0.undo.last() == h.undo[h.undo.len() - m]);
        assert(p.0.undo.drop_last() =~= h.undo.subrange(0, h.undo.len() - m));
        assert(undo_times(h, cur, m) == undo(p.0, p.1));
    } else {
        assert(undo_times(h, cur, 0) == (h, cur));
        assert(undo_times(h, cur, 1) == undo(h, cur));
        assert(h.undo.drop_last() =~= h.undo.subrange(0, h.undo.len() - 1));
    }
}

proof fn lemma_undo_then_redo(h: HistoryView, cur: LevelView, m: nat)
    requires
        1 <= m <= h.undo.len(),
    ensures
        ({
            let u = undo_times(h, cur, m);
            redo_times(u.0, u.1, m) == (flush(h), cur)
        }),
    decreases m,
{
    let u1 = undo_times(h, cur, (m - 1) as nat);
    if m > 1 {
        lemma_undo_times(h, cur, (m - 1) as nat);
        lemma_undo_then_redo(h, cur, (m - 1) as nat);
    }
    assert(u1.0.undo.len() > 0) by {
        if m > 1 {
            lemma_undo_times(h, cur, (m - 1) as nat);
        }
    }
    let u = undo(u1.0, u1.1);
    let back = redo(u.0, u.1);
    assert(back.0.undo =~= u1.0.undo);
    assert(back.0.redo =~= u1.0.redo);
    assert(back.1 == u1.1);
    assert(back.0 == flush(u1.0));
    lemma_redo_times_unfold_last(u.0, u.1, m);
}

/// `redo_times` of `m` is one redo followed by `m - 1` more.
proof fn lemma_redo_times_unfold_last(h: HistoryView, cur: LevelView, m: nat)
    requires
        m >= 1,
    ensures
        redo_times(h, cur, m) == redo_times(redo(h, cur).0, redo(h, cur).1, (m - 1) as nat),
{
}

/// Undo and redo: after edits that each changed the level and each carried a
/// label other than the one before it, undoing as many times as there were
/// edits restores the level from before the first edit, and redoing as many
/// times again restores the level after the last.
pub proof fn lemma_undo_redo(
    h: HistoryView,
    levels: Seq<LevelView>,
    labels: Seq<HistoryLabel>,
    n: nat,
)
    requires
        n >= 1,
        levels.len() == n + 1,
        labels.len() == n,
        h.open != Some(labels[0]),
        forall|k: int| 0 < k < n ==> #[trigger] labels[k] != labels[k - 1],
        forall|k: int| 0 <= k < n ==> #[trigger] levels[k] != levels[k + 1],
    ensures
        ({
            let after = record_all(h, levels, labels, n);
            let u = undo_times(after, levels[n as int], n);
            &&& u.1 == levels[0]
            &&& redo_times(u.0, u.1, n).1 == levels[n as int]
        }),
{
    lemma_record_all(h, levels, labels, n);
    let after = record_all(h, levels, labels, n);
    lemma_undo_times(after, levels[n as int], n);
    assert(after.undo[after.undo.len() - n] == levels[0]);
    lemma_undo_then_redo(after, levels[n as int], n);
}

} // verus!
