use vstd::prelude::*;
use crate::modifier::Modifier;

verus! {

/// The inspected modifier: its index in the chain and a working copy of its
/// parameters.
pub type Selection = Option<(usize, Modifier)>;

/// The part of an editing session that history actions change: the modifier
/// chain and the selection.
pub type State = (Seq<Modifier>, Selection);

/// Why an action could not be applied.
#[derive(Debug, Clone, Copy, PartialEq, Eq)]
pub enum HistoryError {
    /// The index names no modifier of the chain.
    IndexOutOfRange,
    /// Options were applied while no modifier was selected.
    NoSelection,
}

/// The chain and selection an action works on.
#[derive(Debug, Clone, PartialEq, Eq)]
pub struct EditState {
    pub modifiers: Vec<Modifier>,
    pub selection: Selection,
}

impl View for EditState {
    type V = State;

    open spec fn view(&self) -> State {
        (self.modifiers@, self.selection)
    }
}

impl EditState {
    /// An empty chain with nothing selected.
    pub fn new() -> (r: EditState)
        ensures
            r@.0.len() == 0,
            r@.1 is None,
    {
        EditState { modifiers: Vec::new(), selection: None }
    }
}

/// A reversible structural edit. Each variant carries its intent and, once
/// applied, the selection before and after it plus whatever chain content it
/// overwrote, so that it can be undone and redone exactly.
#[derive(Debug, Clone, Copy, PartialEq, Eq)]
pub enum Action {
    ModifierAdded(ModifierAdded),
    ModifierRemoved(ModifierRemoved),
    ModifierOptionsApplied(ModifierOptionsApplied),
    ModifierSelected(ModifierSelected),
}

#[derive(Debug, Clone, Copy, PartialEq, Eq)]
pub struct ModifierAdded {
    pub modifier: Modifier,
    pub previous_selected: Selection,
    pub next_selected: Selection,
}

impl ModifierAdded {
    /// Appends `modifier` to the chain and selects it.
    pub fn new(modifier: Modifier) -> (r: Self)
        ensures
            r.modifier == modifier,
            r.previous_selected is None,
            r.next_selected is None,
    {
        ModifierAdded { modifier, previous_selected: None, next_selected: None }
    }
}

#[derive(Debug, Clone, Copy, PartialEq, Eq)]
pub struct ModifierRemoved {
    pub idx: usize,
    pub modifier: Option<Modifier>,
    pub previous_selected: Selection,
    pub next_selected: Selection,
}

impl ModifierRemoved {
    /// Removes the modifier at `idx`, clearing the selection if it was that one.
    pub fn new(idx: usize) -> (r: Self)
        ensures
            r.idx == idx,
            r.modifier is None,
            r.previous_selected is None,
            r.next_selected is None,
    {
        ModifierRemoved { idx, modifier: None, previous_selected: None, next_selected: None }
    }
}

#[derive(Debug, Clone, Copy, PartialEq, Eq)]
pub struct ModifierOptionsApplied {
    pub previous: Option<Modifier>,
    pub previous_selected: Selection,
    pub next_selected: Selection,
}

impl ModifierOptionsApplied {
    /// Writes the selection's working copy into the chain at its index.
    pub fn new() -> (r: Self)
        ensures
            r.previous is None,
            r.previous_selected is None,
            r.next_selected is None,
    {
        Self { previous: None, previous_selected: None, next_selected: None }
    }
}

#[derive(Debug, Clone, Copy, PartialEq, Eq)]
pub struct ModifierSelected {
    pub idx: usize,
    pub modifier: Modifier,
    pub previous_selected: Selection,
    pub next_selected: Selection,
}

impl ModifierSelected {
    /// Selects the modifier at `idx` with working copy `modifier`, or clears
    /// the selection when that index is already selected.
    pub fn new(idx: usize, modifier: Modifier) -> (r: Self)
        ensures
            r.idx == idx,
            r.modifier == modifier,
            r.previous_selected is None,
            r.next_selected is None,
    {
        Self { idx, modifier, previous_selected: None, next_selected: None }
    }
}

/// The first application of an action's intent to a state.
pub open spec fn perform(a: Action, s: State) -> Result<State, HistoryError> {
    match a {
        Action::ModifierAdded(d) => Ok(
            (s.0.push(d.modifier), Some((s.0.len() as usize, d.modifier))),
        ),
        Action::ModifierRemoved(d) => if d.idx < s.0.len() {
            Ok(
                (
                    s.0.remove(d.idx as int),
                    match s.1 {
                        Some((j, m)) => if j == d.idx {
                            None
                        } else {
                            Some((j, m))
                        },
                        None => None,
                    },
                ),
            )
        } else {
            Err(HistoryError::IndexOutOfRange)
        },
        Action::ModifierOptionsApplied(_) => match s.1 {
            Some((i, m)) => if i < s.0.len() {
                Ok((s.0.update(i as int, m), s.1))
            } else {
                Err(HistoryError::IndexOutOfRange)
            },
            None => Err(HistoryError::NoSelection),
        },
        Action::ModifierSelected(d) => if d.idx < s.0.len() {
            Ok(
                (
                    s.0,
                    match s.1 {
                        Some((j, _)) => if j == d.idx {
                            None
                        } else {
                            Some((d.idx, d.modifier))
                        },
                        None => Some((d.idx, d.modifier)),
                    },
                ),
            )
        } else {
            Err(HistoryError::IndexOutOfRange)
        },
    }
}

/// The action as it stands after its first application to `s`: the same
/// intent, with the selection before and after and the overwritten content.
pub open spec fn record(a: Action, s: State) -> Action {
    let next = match perform(a, s) {
        Ok(s2) => s2.1,
        Err(_) => None,
    };
    match a {
        Action::ModifierAdded(d) => Action::ModifierAdded(
            ModifierAdded { modifier: d.modifier, previous_selected: s.1, next_selected: next },
        ),
        Action::ModifierRemoved(d) => Action::ModifierRemoved(
            ModifierRemoved {
                idx: d.idx,
                modifier: Some(s.0[d.idx as int]),
                previous_selected: s.1,
                next_selected: next,
            },
        ),
        Action::ModifierOptionsApplied(_) => Action::ModifierOptionsApplied(
            ModifierOptionsApplied {
                previous: match s.1 {
                    Some((i, _)) => Some(s.0[i as int]),
                    None => None,
                },
                previous_selected: s.1,
                next_selected: next,
            },
        ),
        Action::ModifierSelected(d) => Action::ModifierSelected(
            ModifierSelected {
                idx: d.idx,
                modifier: d.modifier,
                previous_selected: s.1,
                next_selected: next,
            },
        ),
    }
}

/// Whether a recorded action can be undone on a chain.
pub open spec fn can_revert(a: Action, mods: Seq<Modifier>) -> bool {
    match a {
        Action::ModifierAdded(_) => mods.len() > 0,
        Action::ModifierRemoved(d) => d.modifier is Some && d.idx <= mods.len(),
        Action::ModifierOptionsApplied(d) => d.previous is Some && match d.previous_selected {
            Some((i, _)) => i < mods.len(),
            None => false,
        },
        Action::ModifierSelected(_) => true,
    }
}

/// Undoing a recorded action: the chain restored from what it captured, and
/// the selection it found.
pub open spec fn revert(a: Action, mods: Seq<Modifier>) -> State {
    match a {
        Action::ModifierAdded(d) => (mods.drop_last(), d.previous_selected),
        Action::ModifierRemoved(d) => (
            match d.modifier {
                Some(m) => mods.insert(d.idx as int, m),
                None => mods,
            },
            d.previous_selected,
        ),
        Action::ModifierOptionsApplied(d) => (
            match (d.previous, d.previous_selected) {
                (Some(m), Some((i, _))) => mods.update(i as int, m),
                _ => mods,
            },
            d.previous_selected,
        ),
        Action::ModifierSelected(d) => (mods, d.previous_selected),
    }
}

/// Whether a recorded action can be redone on a chain.
pub open spec fn can_replay(a: Action, mods: Seq<Modifier>) -> bool {
    match a {
        Action::ModifierAdded(_) => true,
        Action::ModifierRemoved(d) => d.idx < mods.len(),
        Action::ModifierOptionsApplied(d) => match d.next_selected {
            Some((i, _)) => i < mods.len(),
            None => false,
        },
        Action::ModifierSelected(_) => true,
    }
}

/// Redoing a recorded action: its effect on the chain again, and the
/// selection it left.
pub open spec fn replay(a: Action, mods: Seq<Modifier>) -> State {
    match a {
        Action::ModifierAdded(d) => (mods.push(d.modifier), d.next_selected),
        Action::ModifierRemoved(d) => (mods.remove(d.idx as int), d.next_selected),
        Action::ModifierOptionsApplied(d) => (
            match d.next_selected {
                Some((i, m)) => mods.update(i as int, m),
                None => mods,
            },
            d.next_selected,
        ),
        Action::ModifierSelected(d) => (mods, d.next_selected),
    }
}

/// An applied action can be undone, which gives back exactly the state it
/// was applied to, and redone, which gives back exactly the state it made.
pub proof fn lemma_record_reversible(a: Action, s: State)
    requires
        perform(a, s) is Ok,
    ensures
        can_revert(record(a, s), perform(a, s)->Ok_0.0),
        revert(record(a, s), perform(a, s)->Ok_0.0) == s,
        can_replay(record(a, s), s.0),
        replay(record(a, s), s.0) == perform(a, s)->Ok_0,
{
    let s2 = perform(a, s)->Ok_0;
    match a {
        Action::ModifierAdded(d) => {
            assert(s2.0.drop_last() =~= s.0);
        },
        Action::ModifierRemoved(d) => {
            assert(s2.0.insert(d.idx as int, s.0[d.idx as int]) =~= s.0);
        },
        Action::ModifierOptionsApplied(_) => {
            let (i, m) = s.1->Some_0;
            assert(s2.0.update(i as int, s.0[i as int]) =~= s.0);
        },
        Action::ModifierSelected(_) => {},
    }
}

impl Action {
    /// Applies the action's intent to `st` for the first time and records in
    /// the action what undo and redo need. On an error nothing changes.
    pub fn perform(&mut self, st: &mut EditState) -> (r: Result<(), HistoryError>)
        ensures
            match perform(*old(self), old(st)@) {
                Ok(s2) => r is Ok && final(st)@ == s2 && *final(self) == record(*old(self), old(st)@),
                Err(e) => r == Err::<(), HistoryError>(e) && final(st)@ == old(st)@ && *final(self) == *old(self),
            },
    {
        let prev = st.selection;
        match self {
            Action::ModifierAdded(d) => {
                let n = st.modifiers.len();
                st.modifiers.push(d.modifier);
                st.selection = Some((n, d.modifier));
                d.previous_selected = prev;
                d.next_selected = st.selection;
                Ok(())
            },
            Action::ModifierRemoved(d) => {
                if d.idx >= st.modifiers.len() {
                    return Err(HistoryError::IndexOutOfRange);
                }
                if let Some((j, _)) = prev {
                    if j == d.idx {
                        st.selection = None;
                    }
                }
                let m = st.modifiers.remove(d.idx);
                d.modifier = Some(m);
                d.previous_selected = prev;
                d.next_selected = st.selection;
                Ok(())
            },
            Action::ModifierOptionsApplied(d) => {
                match prev {
                    Some((i, m)) => {
                        if i >= st.modifiers.len() {
                            return Err(HistoryError::IndexOutOfRange);
                        }
                        d.previous = Some(st.modifiers[i]);
                        st.modifiers.set(i, m);
                        d.previous_selected = prev;
                        d.next_selected = prev;
                        Ok(())
                    },
                    None => Err(HistoryError::NoSelection),
                }
            },
            Action::ModifierSelected(d) => {
                if d.idx >= st.modifiers.len() {
                    return Err(HistoryError::IndexOutOfRange);
                }
                st.selection = match prev {
                    Some((j, _)) => if j == d.idx {
                        None
                    } else {
                        Some((d.idx, d.modifier))
                    },
                    None => Some((d.idx, d.modifier)),
                };
                d.previous_selected = prev;
                d.next_selected = st.selection;
                Ok(())
            },
        }
    }

    /// Undoes the recorded action on `st`.
    pub fn revert(&self, st: &mut EditState)
        requires
            can_revert(*self, old(st)@.0),
        ensures
            final(st)@ == revert(*self, old(st)@.0),
    {
        match self {
            Action::ModifierAdded(d) => {
                st.modifiers.pop();
                st.selection = d.previous_selected;
            },
            Action::ModifierRemoved(d) => {
                if let Some(m) = d.modifier {
                    st.modifiers.insert(d.idx, m);
                }
                st.selection = d.previous_selected;
            },
            Action::ModifierOptionsApplied(d) => {
                if let (Some(m), Some((i, _))) = (d.previous, d.previous_selected) {
                    st.modifiers.set(i, m);
                }
                st.selection = d.previous_selected;
            },
            Action::ModifierSelected(d) => {
                st.selection = d.previous_selected;
            },
        }
    }

    /// Redoes the recorded action on `st`, with what it recorded.
    pub fn replay(&self, st: &mut EditState)
        requires
            can_replay(*self, old(st)@.0),
        ensures
            final(st)@ == replay(*self, old(st)@.0),
    {
        match self {
            Action::ModifierAdded(d) => {
                st.modifiers.push(d.modifier);
                st.selection = d.next_selected;
            },
            Action::ModifierRemoved(d) => {
                st.modifiers.remove(d.idx);
                st.selection = d.next_selected;
            },
            Action::ModifierOptionsApplied(d) => {
                if let Some((i, m)) = d.next_selected {
                    st.modifiers.set(i, m);
                }
                st.selection = d.next_selected;
            },
            Action::ModifierSelected(d) => {
                st.selection = d.next_selected;
            },
        }
    }

    /// Whether undoing or redoing the action changes the modifier chain.
    pub fn changes_chain(&self) -> (r: bool)
        ensures
            r == !(*self is ModifierSelected),
    {
        match self {
            Action::ModifierSelected(_) => false,
            _ => true,
        }
    }
}

/// The recorded actions and the cursor: how many of them are applied.
pub type Timeline = (Seq<Action>, int);

/// Applying an action: on success the undone tail is discarded, the recorded
/// action appended, and the cursor moved past it.
pub open spec fn hist_apply(h: Timeline, s: State, a: Action) -> Result<(Timeline, State), HistoryError> {
    match perform(a, s) {
        Ok(s2) => Ok(((h.0.take(h.1).push(record(a, s)), h.1 + 1), s2)),
        Err(e) => Err(e),
    }
}

/// Undo: nothing at the start of the timeline, else the action before the
/// cursor is reverted and the cursor moves back one.
pub open spec fn hist_undo(h: Timeline, s: State) -> (Timeline, State) {
    if h.1 <= 0 {
        (h, s)
    } else {
        ((h.0, h.1 - 1), revert(h.0[h.1 - 1], s.0))
    }
}

/// Redo: nothing at the end of the timeline, else the action at the cursor is
/// replayed and the cursor moves forward one.
pub open spec fn hist_redo(h: Timeline, s: State) -> (Timeline, State) {
    if h.1 >= h.0.len() {
        (h, s)
    } else {
        ((h.0, h.1 + 1), replay(h.0[h.1], s.0))
    }
}

/// A command log of reversible actions with an undo/redo cursor.
pub struct History {
    entries: Vec<Action>,
    cursor: usize,
    chains: Ghost<Seq<Seq<Modifier>>>,
}

impl View for History {
    type V = Timeline;

    closed spec fn view(&self) -> Timeline {
        (self.entries@, self.cursor as int)
    }
}

impl History {
    /// The log describes how the chain `cur` was reached: every recorded action
    /// can be redone from the chain before it and undone from the chain after it.
    pub closed spec fn consistent(&self, cur: Seq<Modifier>) -> bool {
        let chains = self.chains@;
        &&& chains.len() == self.entries@.len() + 1
        &&& self.cursor <= self.entries@.len()
        &&& chains[self.cursor as int] == cur
        &&& forall|k: int|
            0 <= k < self.entries@.len() ==> {
                &&& can_replay(#[trigger] self.entries@[k], chains[k])
                &&& replay(self.entries@[k], chains[k]).0 == chains[k + 1]
                &&& can_revert(self.entries@[k], chains[k + 1])
                &&& revert(self.entries@[k], chains[k + 1]).0 == chains[k]
            }
    }

    pub proof fn lemma_cursor_bound(&self, cur: Seq<Modifier>)
        requires
            self.consistent(cur),
        ensures
            0 <= self@.1 <= self@.0.len(),
    {
    }

    /// An empty log for a session whose chain is `st`'s.
    pub fn new(st: &EditState) -> (r: History)
        ensures
            r@.0.len() == 0,
            r@.1 == 0,
            r.consistent(st@.0),
    {
        let ghost chains = seq![st@.0];
        History { entries: Vec::new(), cursor: 0, chains: Ghost(chains) }
    }

    /// How many actions are recorded, undone ones included.
    pub fn len(&self) -> (r: usize)
        ensures
            r == self@.0.len(),
    {
        self.entries.len()
    }

    /// How many recorded actions are applied.
    pub fn cursor(&self) -> (r: usize)
        ensures
            r == self@.1,
    {
        self.cursor
    }

    /// Applies `a` to `st` and records it, discarding the undone tail.
    pub fn apply(&mut self, st: &mut EditState, a: Action) -> (r: Result<(), HistoryError>)
        requires
            old(self).consistent(old(st)@.0),
        ensures
            final(self).consistent(final(st)@.0),
            match hist_apply(old(self)@, old(st)@, a) {
                Ok((h2, s2)) => r is Ok && final(self)@ == h2 && final(st)@ == s2,
                Err(e) => r == Err::<(), HistoryError>(e) && final(self)@ == old(self)@ && final(st)@
                    == old(st)@,
            },
    {
        let ghost s = st@;
        let ghost intent = a;
        let mut a = a;
        let res = a.perform(st);
        match res {
            Err(e) => Err(e),
            Ok(()) => {
                proof {
                    lemma_record_reversible(intent, s);
                }
                let c = self.cursor;
                self.entries.truncate(c);
                self.entries.push(a);
                self.cursor = self.entries.len();
                let ghost chains = self.chains@.take(c + 1).push(st@.0);
                self.chains = Ghost(chains);
                assert(self.entries@ =~= old(self)@.0.take(c as int).push(record(intent, s)));
                Ok(())
            },
        }
    }

    /// Undoes the action before the cursor; `false` when there is none.
    pub fn undo(&mut self, st: &mut EditState) -> (r: bool)
        requires
            old(self).consistent(old(st)@.0),
        ensures
            final(self).consistent(final(st)@.0),
            (final(self)@, final(st)@) == hist_undo(old(self)@, old(st)@),
            r == (old(self)@.1 > 0),
    {
        if self.cursor == 0 {
            return false;
        }
        let c = self.cursor - 1;
        let a = self.entries[c];
        a.revert(st);
        self.cursor = c;
        true
    }

    /// Redoes the action at the cursor; `false` when there is none.
    pub fn redo(&mut self, st: &mut EditState) -> (r: bool)
        requires
            old(self).consistent(old(st)@.0),
        ensures
            final(self).consistent(final(st)@.0),
            (final(self)@, final(st)@) == hist_redo(old(self)@, old(st)@),
            r == (old(self)@.1 < old(self)@.0.len()),
    {
        if self.cursor >= self.entries.len() {
            return false;
        }
        let c = self.cursor;
        let a = self.entries[c];
        a.replay(st);
        self.cursor = c + 1;
        true
    }

    /// The action at `i`, as recorded.
    pub fn entry(&self, i: usize) -> (r: Action)
        requires
            i < self@.0.len(),
        ensures
            r == self@.0[i as int],
    {
        self.entries[i]
    }
}

/// Undo followed by redo gives back the timeline and the state that two
/// applied actions made.
pub proof fn lemma_undo_redo(h: Timeline, s: State, a: Action, b: Action)
    requires
        0 <= h.1 <= h.0.len(),
        hist_apply(h, s, a) is Ok,
        hist_apply(hist_apply(h, s, a)->Ok_0.0, hist_apply(h, s, a)->Ok_0.1, b) is Ok,
    ensures
        ({
            let (h1, s1) = hist_apply(h, s, a)->Ok_0;
            let (h2, s2) = hist_apply(h1, s1, b)->Ok_0;
            let (h3, s3) = hist_undo(h2, s2);
            hist_redo(h3, s3) == (h2, s2)
        }),
{
    let (h1, s1) = hist_apply(h, s, a)->Ok_0;
    let (h2, s2) = hist_apply(h1, s1, b)->Ok_0;
    lemma_record_reversible(b, s1);
    assert(h2.0[h2.1 - 1] == record(b, s1));
}

/// Undo right after applying an action gives back the state it was applied to,
/// and the cursor it found.
pub proof fn lemma_apply_undo(h: Timeline, s: State, a: Action)
    requires
        0 <= h.1 <= h.0.len(),
        hist_apply(h, s, a) is Ok,
    ensures
        ({
            let (h1, s1) = hist_apply(h, s, a)->Ok_0;
            let (h2, s2) = hist_undo(h1, s1);
            s2 == s && h2.1 == h.1
        }),
{
    let (h1, s1) = hist_apply(h, s, a)->Ok_0;
    lemma_record_reversible(a, s);
    assert(h1.0[h1.1 - 1] == record(a, s));
}

/// Applying an action after an undo discards the undone one for good: the
/// log holds the earlier actions and the new one, the cursor is at its end,
/// and redo changes nothing.
pub proof fn lemma_branch_discard(h: Timeline, s: State, a: Action, b: Action, c: Action)
    requires
        0 <= h.1 <= h.0.len(),
        hist_apply(h, s, a) is Ok,
        hist_apply(hist_apply(h, s, a)->Ok_0.0, hist_apply(h, s, a)->Ok_0.1, b) is Ok,
    ensures
        ({
            let (h1, s1) = hist_apply(h, s, a)->Ok_0;
            let (h2, s2) = hist_apply(h1, s1, b)->Ok_0;
            let (h3, s3) = hist_undo(h2, s2);
            hist_apply(h3, s3, c) is Ok ==> {
                let (h4, s4) = hist_apply(h3, s3, c)->Ok_0;
                &&& s3 == s1
                &&& h4.0 == h.0.take(h.1).push(record(a, s)).push(record(c, s1))
                &&& h4.1 == h.1 + 2
                &&& hist_redo(h4, s4) == (h4, s4)
            }
        }),
{
    let (h1, s1) = hist_apply(h, s, a)->Ok_0;
    let (h2, s2) = hist_apply(h1, s1, b)->Ok_0;
    lemma_record_reversible(b, s1);
    assert(h2.0[h2.1 - 1] == record(b, s1));
    let (h3, s3) = hist_undo(h2, s2);
    assert(h3.0.take(h3.1) =~= h.0.take(h.1).push(record(a, s)));
}

} // verus!
