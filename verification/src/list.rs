//! A list of items paired with a single optional selection cursor.
//!
//! The cursor supports relative moves (`next`, `previous`, both wrapping) and
//! absolute moves (`first`, `last`). No cursor move ever changes the item
//! sequence; replacing the items is the owner's job and does not adjust the
//! cursor.

use vstd::prelude::*;

verus! {

/// The selection cursor of a list: either no selection or an index.
pub struct ListState {
    selected: Option<usize>,
}

impl ListState {
    /// A fresh cursor with nothing selected.
    pub fn new() -> (r: ListState)
        ensures
            r.selected() is None,
    {
        ListState { selected: None }
    }

    /// The current selection as a spec value.
    pub closed spec fn spec_selected(&self) -> Option<usize> {
        self.selected
    }

    /// The current selection, if any.
    #[verifier::when_used_as_spec(spec_selected)]
    pub fn selected(&self) -> (r: Option<usize>)
        ensures
            r == self.spec_selected(),
    {
        self.selected
    }

    /// Overwrite the selection.
    pub fn select(&mut self, index: Option<usize>)
        ensures
            final(self).selected() == index,
    {
        self.selected = index;
    }
}

/// An ordered sequence of items with one optional selection cursor.
pub struct StatefulList<T> {
    pub state: ListState,
    pub items: Vec<T>,
}

/// The selection one `next` call produces, given the selection before the
/// call and the list length: no move on an empty list; index 0 when nothing
/// was selected; otherwise the successor index, wrapping to 0 at the end.
pub open spec fn next_selection(sel: Option<usize>, len: nat) -> Option<usize> {
    if len == 0 {
        sel
    } else {
        match sel {
            Some(i) => if i as nat >= len - 1 { Some(0usize) } else { Some((i + 1) as usize) },
            None => Some(0usize),
        }
    }
}

/// The selection one `previous` call produces: no move on an empty list;
/// index 0 when nothing was selected; otherwise the predecessor index,
/// wrapping to the last index at the start.
pub open spec fn previous_selection(sel: Option<usize>, len: nat) -> Option<usize> {
    if len == 0 {
        sel
    } else {
        match sel {
            Some(i) => if i == 0 { Some((len - 1) as usize) } else { Some((i - 1) as usize) },
            None => Some(0usize),
        }
    }
}

impl<T> StatefulList<T> {
    /// The cursor, when set, is a valid index into the items.
    pub open spec fn wf(&self) -> bool {
        self.state.selected() matches Some(i) ==> (i as nat) < self.items@.len()
    }

    /// Build a list over `items` with nothing selected.
    pub fn with_items(items: Vec<T>) -> (r: StatefulList<T>)
        ensures
            r.items@ == items@,
            r.state.selected() is None,
            r.wf(),
    {
        StatefulList { state: ListState::new(), items }
    }

    /// Move the cursor to the next item, wrapping at the end; selects index 0
    /// when nothing was selected; leaves an empty list untouched.
    pub fn next(&mut self)
        requires
            old(self).wf(),
        ensures
            final(self).wf(),
            final(self).items@ == old(self).items@,
            final(self).state.selected() == next_selection(
                old(self).state.selected(),
                old(self).items@.len(),
            ),
    {
        if self.items.len() > 0 {
            let i: usize = match self.state.selected() {
                Some(i) => {
                    if i >= self.items.len() - 1 {
                        0
                    } else {
                        i + 1
                    }
                },
                None => 0,
            };
            self.state.select(Some(i));
        }
    }

    /// Move the cursor to the previous item, wrapping at the start; selects
    /// index 0 when nothing was selected; leaves an empty list untouched.
    pub fn previous(&mut self)
        requires
            old(self).wf(),
        ensures
            final(self).wf(),
            final(self).items@ == old(self).items@,
            final(self).state.selected() == previous_selection(
                old(self).state.selected(),
                old(self).items@.len(),
            ),
    {
        if self.items.len() > 0 {
            let i: usize = match self.state.selected() {
                Some(i) => {
                    if i == 0 {
                        self.items.len() - 1
                    } else {
                        i - 1
                    }
                },
                None => 0,
            };
            self.state.select(Some(i));
        }
    }

    /// Select the first item. The caller must guard against an empty list.
    pub fn first(&mut self)
        requires
            old(self).items@.len() > 0,
        ensures
            final(self).wf(),
            final(self).items@ == old(self).items@,
            final(self).state.selected() == Some(0usize),
    {
        self.state.select(Some(0));
    }

    /// Select the last item. The caller must guard against an empty list.
    pub fn last(&mut self)
        requires
            old(self).items@.len() > 0,
        ensures
            final(self).wf(),
            final(self).items@ == old(self).items@,
            final(self).state.selected() == Some((old(self).items@.len() - 1) as usize),
    {
        self.state.select(Some(self.items.len() - 1));
    }
}

/// The selection after `k` calls of `next` on a list of length `len`,
/// starting from no selection.
pub open spec fn selection_after_nexts(len: nat, k: nat) -> Option<usize>
    decreases k,
{
    if k == 0 {
        None
    } else {
        next_selection(selection_after_nexts(len, (k - 1) as nat), len)
    }
}

/// Law: on a non-empty list of length `len`, starting from no selection, the
/// `k`-th call of `next` (for `1 <= k <= len`) leaves index `k - 1` selected,
/// so the first `len` calls visit the indices `0 .. len` in order.
pub proof fn lemma_next_visits_in_order(len: nat, k: nat)
    requires
        0 < len,
        1 <= k <= len,
        len <= usize::MAX,
    ensures
        selection_after_nexts(len, k) == Some((k - 1) as usize),
    decreases k,
{
    if k == 1 {
    } else {
        lemma_next_visits_in_order(len, (k - 1) as nat);
    }
}

/// Law: on a non-empty list of length `len`, starting from no selection, the
/// `(len + 1)`-th call of `next` wraps the cursor back to index 0.
pub proof fn lemma_next_wraps(len: nat)
    requires
        0 < len,
        len <= usize::MAX,
    ensures
        selection_after_nexts(len, len + 1) == Some(0usize),
{
    lemma_next_visits_in_order(len, len);
}

} // verus!
