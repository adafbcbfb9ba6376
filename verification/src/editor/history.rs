//! The history of a document: the states to go back to and the states to go
//! forward to again.

use vstd::prelude::*;

verus! {

/// How many states the history keeps to go back to.
pub const MAX_HISTORY_SIZE: usize = 100;

/// The states of a document before and after the one that is shown.
#[derive(Debug)]
pub struct History<T> {
    /// Past states (for undo), the oldest first.
    undo_stack: Vec<T>,
    /// Future states (for redo), the next one last.
    redo_stack: Vec<T>,
}

/// The mathematical value of a [`History`].
pub struct HistoryView<T> {
    /// The states to go back to, the oldest first.
    pub past: Seq<T>,
    /// The states to go forward to, the next one last.
    pub future: Seq<T>,
}

impl<T> HistoryView<T> {
    /// Whether the history is within its bound: the states to go back to
    /// and to go forward to are together no more than
    /// [`MAX_HISTORY_SIZE`].
    pub open spec fn is_bounded(self) -> bool {
        self.past.len() + self.future.len() <= MAX_HISTORY_SIZE
    }

    /// The history after `state` has been saved: it is the newest state to
    /// go back to, the oldest is forgotten where there would be more than
    /// [`MAX_HISTORY_SIZE`], and there is nothing to go forward to.
    pub open spec fn saved(self, state: T) -> HistoryView<T> {
        HistoryView {
            past: if self.past.len() >= MAX_HISTORY_SIZE {
                self.past.push(state).skip(1)
            } else {
                self.past.push(state)
            },
            future: Seq::empty(),
        }
    }

    /// The history after a step back from `current`, where there is a state
    /// to go back to.
    pub open spec fn undone(self, current: T) -> HistoryView<T> {
        HistoryView { past: self.past.drop_last(), future: self.future.push(current) }
    }

    /// The history after a step forward from `current`, where there is a
    /// state to go forward to.
    pub open spec fn redone(self, current: T) -> HistoryView<T> {
        HistoryView { past: self.past.push(current), future: self.future.drop_last() }
    }
}

impl<T> View for History<T> {
    type V = HistoryView<T>;

    closed spec fn view(&self) -> HistoryView<T> {
        HistoryView { past: self.undo_stack@, future: self.redo_stack@ }
    }
}

impl<T> Default for History<T> {
    fn default() -> (history: Self)
        ensures
            history@.past.len() == 0,
            history@.future.len() == 0,
            history@.is_bounded(),
    {
        History::new()
    }
}

impl<T> History<T> {
    /// A history with nothing to go back or forward to.
    pub fn new() -> (history: Self)
        ensures
            history@.past.len() == 0,
            history@.future.len() == 0,
            history@.is_bounded(),
    {
        History { undo_stack: Vec::new(), redo_stack: Vec::new() }
    }

    /// Save the current state before making changes.
    pub fn save_state(&mut self, document: T)
        ensures
            final(self)@ == old(self)@.saved(document),
            old(self)@.is_bounded() ==> final(self)@.is_bounded(),
    {
        self.undo_stack.push(document);
        // Clear redo stack when new action is performed
        self.redo_stack.clear();
        // Limit history size
        if self.undo_stack.len() > MAX_HISTORY_SIZE {
            self.undo_stack.remove(0);
            assert(self.undo_stack@ =~= old(self).undo_stack@.push(document).skip(1));
        }
    }

    /// Undo: restore previous state. `current` becomes the state to go
    /// forward to.
    pub fn undo(&mut self, current: T) -> (previous: Option<T>)
        ensures
            match previous {
                Some(p) => old(self)@.past.len() > 0 && p == old(self)@.past.last()
                    && final(self)@ == old(self)@.undone(current),
                None => old(self)@.past.len() == 0 && final(self)@ == old(self)@,
            },
            old(self)@.is_bounded() ==> final(self)@.is_bounded(),
    {
        match self.undo_stack.pop() {
            Some(previous) => {
                // Save current state to redo stack
                self.redo_stack.push(current);
                Some(previous)
            },
            None => None,
        }
    }

    /// Redo: restore next state. `current` becomes the state to go back
    /// to.
    pub fn redo(&mut self, current: T) -> (next: Option<T>)
        ensures
            match next {
                Some(n) => old(self)@.future.len() > 0 && n == old(self)@.future.last()
                    && final(self)@ == old(self)@.redone(current),
                None => old(self)@.future.len() == 0 && final(self)@ == old(self)@,
            },
            old(self)@.is_bounded() ==> final(self)@.is_bounded(),
    {
        match self.redo_stack.pop() {
            Some(next) => {
                // Save current state to undo stack
                self.undo_stack.push(current);
                Some(next)
            },
            None => None,
        }
    }

    /// Check if undo is available.
    pub fn can_undo(&self) -> (can: bool)
        ensures
            can == (self@.past.len() > 0),
    {
        self.undo_stack.len() > 0
    }

    /// Check if redo is available.
    pub fn can_redo(&self) -> (can: bool)
        ensures
            can == (self@.future.len() > 0),
    {
        self.redo_stack.len() > 0
    }

    /// Clear all history (e.g., when loading a new file).
    pub fn clear(&mut self)
        ensures
            final(self)@.past.len() == 0,
            final(self)@.future.len() == 0,
            final(self)@.is_bounded(),
    {
        self.undo_stack.clear();
        self.redo_stack.clear();
    }

    /// Get undo stack size (for UI display).
    pub fn undo_count(&self) -> (count: usize)
        ensures
            count == self@.past.len(),
    {
        self.undo_stack.len()
    }

    /// Get redo stack size (for UI display).
    pub fn redo_count(&self) -> (count: usize)
        ensures
            count == self@.future.len(),
    {
        self.redo_stack.len()
    }
}

/// A step back and a step forward again leave the history as it was, and
/// give back the state that the step back was made from.
pub proof fn redo_undoes_undo<T>(h: HistoryView<T>, current: T)
    requires
        h.past.len() > 0,
    ensures
        h.undone(current).redone(h.past.last()) == h,
        h.undone(current).future.last() == current,
{
    let back = h.undone(current);
    assert(back.redone(h.past.last()).past =~= h.past);
    assert(back.redone(h.past.last()).future =~= h.future);
}

/// A step forward and a step back again leave the history as it was, and
/// give back the state that the step forward was made from.
pub proof fn undo_undoes_redo<T>(h: HistoryView<T>, current: T)
    requires
        h.future.len() > 0,
    ensures
        h.redone(current).undone(h.future.last()) == h,
        h.redone(current).past.last() == current,
{
    let forth = h.redone(current);
    assert(forth.undone(h.future.last()).past =~= h.past);
    assert(forth.undone(h.future.last()).future =~= h.future);
}

/// Saving a state leaves nothing to go forward to and never more than
/// [`MAX_HISTORY_SIZE`] states to go back to, the newest of which is the
/// state that was saved.
pub proof fn saving_bounds_history<T>(h: HistoryView<T>, state: T)
    requires
        h.past.len() <= MAX_HISTORY_SIZE,
    ensures
        h.saved(state).future.len() == 0,
        0 < h.saved(state).past.len() <= MAX_HISTORY_SIZE,
        h.saved(state).past.last() == state,
        h.saved(state).is_bounded(),
{
}

/// A history within its bound stays within it, whichever way a step goes.
pub proof fn steps_keep_bound<T>(h: HistoryView<T>, current: T)
    requires
        h.is_bounded(),
    ensures
        h.saved(current).is_bounded(),
        h.past.len() > 0 ==> h.undone(current).is_bounded(),
        h.future.len() > 0 ==> h.redone(current).is_bounded(),
{
}

} // verus!
