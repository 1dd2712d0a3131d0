//! Undo and redo of calculator states.
use vstd::prelude::*;
use crate::stack::{CalcState, StateModel};

verus! {

/// Snapshots to undo to (`past`, newest last) and states undone (`future`,
/// newest last), holding at most `max_depth` states together.
pub struct UndoHistory {
    past: Vec<CalcState>,
    future: Vec<CalcState>,
    max_depth: usize,
}

/// The mathematical content of an [`UndoHistory`].
pub struct UndoModel {
    pub past: Seq<StateModel>,
    pub future: Seq<StateModel>,
    pub max_depth: nat,
}

pub open spec fn states_model(v: Seq<CalcState>) -> Seq<StateModel> {
    v.map_values(|s: CalcState| s@)
}

impl View for UndoHistory {
    type V = UndoModel;

    closed spec fn view(&self) -> UndoModel {
        UndoModel {
            past: states_model(self.past@),
            future: states_model(self.future@),
            max_depth: self.max_depth as nat,
        }
    }
}

/// The history after saving `s`: it is the newest snapshot, the oldest is
/// dropped when there are more than `max_depth`, and nothing is left to redo.
pub open spec fn snapshot_model(h: UndoModel, s: StateModel) -> UndoModel {
    let past = h.past.push(s);
    UndoModel {
        past: if past.len() > h.max_depth { past.drop_first() } else { past },
        future: Seq::empty(),
        max_depth: h.max_depth,
    }
}

/// Undo from `current`: the newest snapshot is returned and `current` becomes
/// the newest state to redo; nothing happens when there is no snapshot.
pub open spec fn undo_model(h: UndoModel, current: StateModel) -> (Option<StateModel>, UndoModel) {
    if h.past.len() == 0 {
        (None, h)
    } else {
        (
            Some(h.past.last()),
            UndoModel {
                past: h.past.drop_last(),
                future: h.future.push(current),
                max_depth: h.max_depth,
            },
        )
    }
}

/// Redo from `current`: the newest undone state is returned and `current`
/// becomes the newest snapshot; nothing happens when nothing was undone.
pub open spec fn redo_model(h: UndoModel, current: StateModel) -> (Option<StateModel>, UndoModel) {
    if h.future.len() == 0 {
        (None, h)
    } else {
        (
            Some(h.future.last()),
            UndoModel {
                past: h.past.push(current),
                future: h.future.drop_last(),
                max_depth: h.max_depth,
            },
        )
    }
}

impl UndoHistory {
    /// The stored states are well formed and at most `max_depth` of them.
    pub closed spec fn wf(&self) -> bool {
        &&& self.past@.len() + self.future@.len() <= self.max_depth
        &&& forall|i: int| 0 <= i < self.past@.len() ==> #[trigger] self.past@[i].wf()
        &&& forall|i: int| 0 <= i < self.future@.len() ==> #[trigger] self.future@[i].wf()
    }

    /// A history never holds more than `max_depth` states, counting those to
    /// undo and those to redo.
    pub proof fn law_bounded(&self)
        requires
            self.wf(),
        ensures
            self@.past.len() + self@.future.len() <= self@.max_depth,
    {
    }

    /// An empty history keeping up to 1000 states.
    pub fn new() -> (r: Self)
        ensures
            r.wf(),
            r@.past.len() == 0,
            r@.future.len() == 0,
            r@.max_depth == 1000,
    {
        UndoHistory { past: Vec::new(), future: Vec::new(), max_depth: 1000 }
    }

    /// An empty history keeping up to `max_depth` states.
    pub fn with_max_depth(max_depth: usize) -> (r: Self)
        ensures
            r.wf(),
            r@.past.len() == 0,
            r@.future.len() == 0,
            r@.max_depth == max_depth,
    {
        UndoHistory { past: Vec::new(), future: Vec::new(), max_depth }
    }

    /// Save a snapshot of the current state before an operation.
    pub fn snapshot(&mut self, state: &CalcState)
        requires
            old(self).wf(),
            state.wf(),
        ensures
            final(self).wf(),
            final(self)@ == snapshot_model(old(self)@, state@),
    {
        let ghost h = self@;
        self.past.push(state.clone());
        self.future.clear();
        assert(states_model(self.past@) =~= h.past.push(state@));
        if self.past.len() > self.max_depth {
            let _ = self.past.remove(0);
            assert(states_model(self.past@) =~= h.past.push(state@).drop_first());
        }
        assert(states_model(self.future@) =~= Seq::<StateModel>::empty());
        proof {
            assert forall|i: int| 0 <= i < self.past@.len() implies #[trigger] self.past@[i].wf() by {
                if self.past@.len() == h.past.len() + 1 {
                    if i < h.past.len() {
                        assert(old(self).past@[i].wf());
                    }
                } else {
                    assert(old(self).past@[i + 1].wf() || i + 1 == h.past.len());
                }
            }
        }
    }

    /// Undo: restore previous state, pushing current into future.
    pub fn undo(&mut self, current: &CalcState) -> (r: Option<CalcState>)
        requires
            old(self).wf(),
            current.wf(),
        ensures
            final(self).wf(),
            (match r {
                Some(s) => Some(s@),
                None => None,
            }) == undo_model(old(self)@, current@).0,
            final(self)@ == undo_model(old(self)@, current@).1,
            r matches Some(s) ==> s.wf(),
    {
        let ghost h = self@;
        match self.past.pop() {
            Some(prev) => {
                self.future.push(current.clone());
                proof {
                    assert(states_model(self.past@) =~= h.past.drop_last());
                    assert(states_model(self.future@) =~= h.future.push(current@));
                    assert(old(self).past@[old(self).past@.len() - 1].wf());
                    assert forall|i: int| 0 <= i < self.future@.len() implies #[trigger] self.future@[i].wf() by {
                        if i < h.future.len() {
                            assert(old(self).future@[i].wf());
                        }
                    }
                    assert forall|i: int| 0 <= i < self.past@.len() implies #[trigger] self.past@[i].wf() by {
                        assert(old(self).past@[i].wf());
                    }
                }
                Some(prev)
            },
            None => None,
        }
    }

    /// Redo: re-apply a previously undone operation.
    pub fn redo(&mut self, current: &CalcState) -> (r: Option<CalcState>)
        requires
            old(self).wf(),
            current.wf(),
        ensures
            final(self).wf(),
            (match r {
                Some(s) => Some(s@),
                None => None,
            }) == redo_model(old(self)@, current@).0,
            final(self)@ == redo_model(old(self)@, current@).1,
            r matches Some(s) ==> s.wf(),
    {
        let ghost h = self@;
        match self.future.pop() {
            Some(next) => {
                self.past.push(current.clone());
                proof {
                    assert(states_model(self.future@) =~= h.future.drop_last());
                    assert(states_model(self.past@) =~= h.past.push(current@));
                    assert(old(self).future@[old(self).future@.len() - 1].wf());
                    assert forall|i: int| 0 <= i < self.past@.len() implies #[trigger] self.past@[i].wf() by {
                        if i < h.past.len() {
                            assert(old(self).past@[i].wf());
                        }
                    }
                    assert forall|i: int| 0 <= i < self.future@.len() implies #[trigger] self.future@[i].wf() by {
                        assert(old(self).future@[i].wf());
                    }
                }
                Some(next)
            },
            None => None,
        }
    }

    pub fn can_undo(&self) -> (r: bool)
        ensures
            r == (self@.past.len() > 0),
    {
        !self.past.is_empty()
    }

    pub fn can_redo(&self) -> (r: bool)
        ensures
            r == (self@.future.len() > 0),
    {
        !self.future.is_empty()
    }

    /// How many snapshots can be undone.
    pub fn undo_depth(&self) -> (r: usize)
        ensures
            r == self@.past.len(),
    {
        self.past.len()
    }
}

impl Default for UndoHistory {
    fn default() -> (r: Self)
        ensures
            r.wf(),
            r@.past.len() == 0,
            r@.future.len() == 0,
            r@.max_depth == 1000,
    {
        Self::new()
    }
}

/// Undoing right after a snapshot gives back the saved state (when the
/// history keeps at least one state).
pub proof fn law_undo_restores_snapshot(h: UndoModel, saved: StateModel, current: StateModel)
    requires
        h.max_depth > 0,
    ensures
        undo_model(snapshot_model(h, saved), current).0 == Some(saved),
{
}

/// Redoing right after an undo gives back the state that was current, and
/// leaves the history as it was before the undo.
pub proof fn law_redo_after_undo(h: UndoModel, current: StateModel)
    requires
        h.past.len() > 0,
    ensures
        ({
            let (restored, h1) = undo_model(h, current);
            let (again, h2) = redo_model(h1, restored.unwrap());
            again == Some(current) && h2 == h
        }),
{
    let (restored, h1) = undo_model(h, current);
    let (again, h2) = redo_model(h1, restored.unwrap());
    assert(h2.past =~= h.past);
    assert(h2.future =~= h.future);
}

/// Redo with nothing undone hands back no state and changes nothing: the
/// states to undo (and so whether undo is possible) stay as they were.
pub proof fn law_redo_without_undo(h: UndoModel, current: StateModel)
    requires
        h.future.len() == 0,
    ensures
        redo_model(h, current).0 is None,
        redo_model(h, current).1 == h,
        redo_model(h, current).1.past == h.past,
{
}

/// Right after a snapshot, redo hands back nothing and keeps the snapshot
/// as the newest state to undo.
pub proof fn law_redo_after_snapshot(h: UndoModel, saved: StateModel, current: StateModel)
    requires
        h.max_depth > 0,
    ensures
        redo_model(snapshot_model(h, saved), current).0 is None,
        redo_model(snapshot_model(h, saved), current).1 == snapshot_model(h, saved),
        redo_model(snapshot_model(h, saved), current).1.past.last() == saved,
{
}

/// A new snapshot leaves nothing to redo.
pub proof fn law_snapshot_clears_redo(h: UndoModel, s: StateModel)
    ensures
        snapshot_model(h, s).future.len() == 0,
{
}

/// A snapshot never leaves more than `max_depth` states to undo.
pub proof fn law_snapshot_bounded(h: UndoModel, s: StateModel)
    requires
        h.past.len() <= h.max_depth,
    ensures
        snapshot_model(h, s).past.len() <= h.max_depth,
{
}

} // verus!
