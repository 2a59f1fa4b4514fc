use vstd::prelude::*;
use crate::buffer::PixelBuffer;
use crate::history::{hist_apply, hist_redo, hist_undo, Action, EditState, History, HistoryError};
use crate::modifier::Modifier;
use crate::pipeline::copy_buffer;

verus! {

/// The generation that follows `g`, wrapping at the top of `u64`.
pub open spec fn next_generation(g: u64) -> u64 {
    if g < u64::MAX {
        (g + 1) as u64
    } else {
        0
    }
}

/// One opened image: the base it was opened with, the modifier chain and
/// selection, their edit history, and the last output delivered for them.
/// Each edit of the chain starts a new generation of recomputation; only the
/// output of the current generation is accepted.
pub struct EditSession {
    pub base: PixelBuffer,
    pub state: EditState,
    pub history: History,
    pub output: PixelBuffer,
    pub busy: bool,
    pub generation: u64,
}

impl EditSession {
    pub open spec fn wf(&self) -> bool {
        &&& self.base.wf()
        &&& self.history.consistent(self.state@.0)
    }

    /// A session on a freshly opened image: empty chain, empty history, the
    /// base itself as output.
    pub fn new(base: PixelBuffer) -> (r: EditSession)
        requires
            base.wf(),
        ensures
            r.wf(),
            r.base@ == base@,
            r.output@ == base@,
            r.state@.0.len() == 0,
            r.state@.1 is None,
            r.history@.0.len() == 0,
            r.history@.1 == 0,
            !r.busy,
            r.generation == 0,
    {
        let state = EditState::new();
        let history = History::new(&state);
        let output = copy_buffer(&base);
        EditSession { base, state, history, output, busy: false, generation: 0 }
    }

    fn start_recompute(&mut self) -> (r: u64)
        ensures
            r == next_generation(old(self).generation),
            final(self).generation == r,
            final(self).busy,
            final(self).base == old(self).base,
            final(self).state == old(self).state,
            final(self).history == old(self).history,
            final(self).output == old(self).output,
    {
        self.generation = if self.generation < u64::MAX {
            self.generation + 1
        } else {
            0
        };
        self.busy = true;
        self.generation
    }

    /// Applies and records an action. When it changes the chain, a
    /// recomputation of the output is due: its generation is returned.
    pub fn apply(&mut self, a: Action) -> (r: Result<Option<u64>, HistoryError>)
        requires
            old(self).wf(),
        ensures
            final(self).wf(),
            final(self).base == old(self).base,
            final(self).output == old(self).output,
            match hist_apply(old(self).history@, old(self).state@, a) {
                Ok((h2, s2)) => {
                    &&& final(self).history@ == h2
                    &&& final(self).state@ == s2
                    &&& r is Ok
                    &&& (a is ModifierSelected ==> r == Ok::<Option<u64>, HistoryError>(None)
                        && final(self).generation == old(self).generation && final(self).busy
                        == old(self).busy)
                    &&& (!(a is ModifierSelected) ==> r == Ok::<Option<u64>, HistoryError>(
                        Some(next_generation(old(self).generation)),
                    ) && final(self).generation == next_generation(old(self).generation)
                        && final(self).busy)
                },
                Err(e) => {
                    &&& r == Err::<Option<u64>, HistoryError>(e)
                    &&& final(self).history@ == old(self).history@
                    &&& final(self).state@ == old(self).state@
                    &&& final(self).generation == old(self).generation
                    &&& final(self).busy == old(self).busy
                },
            },
    {
        let changes = a.changes_chain();
        let res = self.history.apply(&mut self.state, a);
        match res {
            Err(e) => Err(e),
            Ok(()) => {
                if changes {
                    let g = self.start_recompute();
                    Ok(Some(g))
                } else {
                    Ok(None)
                }
            },
        }
    }

    /// Undoes the last applied action, if any. Returns the generation of the
    /// recomputation that is due, when the chain changed.
    pub fn undo(&mut self) -> (r: Option<u64>)
        requires
            old(self).wf(),
        ensures
            final(self).wf(),
            final(self).base == old(self).base,
            (final(self).history@, final(self).state@) == hist_undo(
                old(self).history@,
                old(self).state@,
            ),
            r is Some ==> r == Some(next_generation(old(self).generation))
                && final(self).generation == r->Some_0 && final(self).busy,
            final(self).output == old(self).output,
            r is None ==> final(self).generation == old(self).generation && final(self).busy
                == old(self).busy,
            r is Some <==> old(self).history@.1 > 0 && !(old(self).history@.0[old(
                self,
            ).history@.1 - 1] is ModifierSelected),
    {
        proof {
            self.history.lemma_cursor_bound(self.state@.0);
        }
        let c = self.history.cursor();
        if c == 0 {
            let _ = self.history.undo(&mut self.state);
            return None;
        }
        let changes = self.history.entry(c - 1).changes_chain();
        let _ = self.history.undo(&mut self.state);
        if changes {
            Some(self.start_recompute())
        } else {
            None
        }
    }

    /// Redoes the next undone action, if any. Returns the generation of the
    /// recomputation that is due, when the chain changed.
    pub fn redo(&mut self) -> (r: Option<u64>)
        requires
            old(self).wf(),
        ensures
            final(self).wf(),
            final(self).base == old(self).base,
            (final(self).history@, final(self).state@) == hist_redo(
                old(self).history@,
                old(self).state@,
            ),
            r is Some ==> r == Some(next_generation(old(self).generation))
                && final(self).generation == r->Some_0 && final(self).busy,
            final(self).output == old(self).output,
            r is None ==> final(self).generation == old(self).generation && final(self).busy
                == old(self).busy,
            r is Some <==> old(self).history@.1 < old(self).history@.0.len() && !(old(
                self,
            ).history@.0[old(self).history@.1] is ModifierSelected),
    {
        proof {
            self.history.lemma_cursor_bound(self.state@.0);
        }
        let c = self.history.cursor();
        if c >= self.history.len() {
            let _ = self.history.redo(&mut self.state);
            return None;
        }
        let changes = self.history.entry(c).changes_chain();
        let _ = self.history.redo(&mut self.state);
        if changes {
            Some(self.start_recompute())
        } else {
            None
        }
    }

    /// Replaces the working copy of the selected modifier's parameters; not
    /// recorded, it takes effect when options are applied.
    pub fn change_options(&mut self, m: Modifier) -> (r: Result<(), HistoryError>)
        requires
            old(self).wf(),
        ensures
            final(self).wf(),
            final(self).base == old(self).base,
            final(self).history@ == old(self).history@,
            final(self).state@.0 == old(self).state@.0,
            final(self).generation == old(self).generation,
            final(self).output == old(self).output,
            final(self).busy == old(self).busy,
            match old(self).state@.1 {
                Some((i, _)) => r is Ok && final(self).state@.1 == Some((i, m)),
                None => r == Err::<(), HistoryError>(HistoryError::NoSelection)
                    && final(self).state@.1 is None,
            },
    {
        match self.state.selection {
            Some((i, _)) => {
                self.state.selection = Some((i, m));
                Ok(())
            },
            None => Err(HistoryError::NoSelection),
        }
    }

    /// Hands in a recomputed output. It is taken only when it belongs to the
    /// current generation; a late result of an older edit is dropped.
    pub fn deliver(&mut self, generation: u64, output: PixelBuffer) -> (r: bool)
        requires
            old(self).wf(),
        ensures
            final(self).wf(),
            r == (generation == old(self).generation && old(self).busy),
            final(self).base == old(self).base,
            final(self).state == old(self).state,
            final(self).history == old(self).history,
            final(self).generation == old(self).generation,
            r ==> final(self).output == output && !final(self).busy,
            !r ==> final(self).output == old(self).output && final(self).busy == old(self).busy,
    {
        if generation == self.generation && self.busy {
            self.output = output;
            self.busy = false;
            true
        } else {
            false
        }
    }
}

} // verus!
