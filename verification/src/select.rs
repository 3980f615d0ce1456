//! Selection state machine for an inventory list.
//!
//! The selection is either `Empty` (nothing to focus) or `Focused(i)`, an
//! index into the currently displayed list. Navigation wraps around the list,
//! and every refresh re-clamps the index against the new length, so a
//! selection never dangles past the end of a non-empty list and never stays
//! focused on an empty one.

use vstd::prelude::*;

verus! {

/// Which inventory row is focused, if any.
#[derive(Clone, Copy, PartialEq, Eq, Structural, Debug)]
pub enum Selection {
    Empty,
    Focused(usize),
}

impl Selection {
    /// The selection agrees with a list of length `len`: focused inside the
    /// list when it is non-empty, empty otherwise.
    pub open spec fn valid(self, len: nat) -> bool {
        match self {
            Selection::Empty => len == 0,
            Selection::Focused(i) => 0 < len && (i as nat) < len,
        }
    }

    /// Where `next` moves the selection for a list of length `len`: the
    /// following row, wrapping from the last row to the first.
    pub open spec fn spec_next(self, len: nat) -> Selection {
        if len == 0 {
            Selection::Empty
        } else {
            match self {
                Selection::Empty => Selection::Focused(0),
                Selection::Focused(i) => if i + 1 >= len {
                    Selection::Focused(0)
                } else {
                    Selection::Focused((i + 1) as usize)
                },
            }
        }
    }

    /// Where `previous` moves the selection: the preceding row, wrapping from
    /// the first row to the last.
    pub open spec fn spec_previous(self, len: nat) -> Selection {
        if len == 0 {
            Selection::Empty
        } else {
            match self {
                Selection::Empty => Selection::Focused(0),
                Selection::Focused(i) => if i == 0 {
                    Selection::Focused((len - 1) as usize)
                } else {
                    Selection::Focused((i - 1) as usize)
                },
            }
        }
    }

    /// Where a refresh leaves the selection: forced empty when the new list is
    /// empty, focused on the first row when nothing was focused, and otherwise
    /// clamped to the new last row — never silently deselected while rows
    /// remain.
    pub open spec fn spec_on_refresh(self, new_len: nat) -> Selection {
        if new_len == 0 {
            Selection::Empty
        } else {
            match self {
                Selection::Empty => Selection::Focused(0),
                Selection::Focused(i) => if i as nat >= new_len {
                    Selection::Focused((new_len - 1) as usize)
                } else {
                    Selection::Focused(i)
                },
            }
        }
    }

    /// The dashboard starts focused on the first row of an eventually
    /// non-empty list.
    pub fn new() -> (r: Self)
        ensures
            r == Selection::Focused(0usize),
    {
        Selection::Focused(0)
    }

    /// The focused index, if any.
    pub open spec fn spec_selected(self) -> Option<usize> {
        match self {
            Selection::Empty => None,
            Selection::Focused(i) => Some(i),
        }
    }

    /// The focused index, if any.
    pub fn selected(&self) -> (r: Option<usize>)
        ensures
            r == self.spec_selected(),
    {
        match *self {
            Selection::Empty => None,
            Selection::Focused(i) => Some(i),
        }
    }

    /// Moves to the next row, wrapping to the first past the end. The result
    /// is in range for any non-empty list of length `len`.
    pub fn next(&mut self, len: usize)
        ensures
            *final(self) == old(self).spec_next(len as nat),
            final(self).valid(len as nat),
    {
        if len == 0 {
            *self = Selection::Empty;
        } else {
            *self = match *self {
                Selection::Empty => Selection::Focused(0),
                Selection::Focused(i) => if i >= len - 1 {
                    Selection::Focused(0)
                } else {
                    Selection::Focused(i + 1)
                },
            };
        }
    }

    /// Moves to the previous row, wrapping to the last before the start. In
    /// range whenever the old selection agreed with the list.
    pub fn previous(&mut self, len: usize)
        ensures
            *final(self) == old(self).spec_previous(len as nat),
            old(self).valid(len as nat) || len == 0 ==> final(self).valid(len as nat),
    {
        if len == 0 {
            *self = Selection::Empty;
        } else {
            *self = match *self {
                Selection::Empty => Selection::Focused(0),
                Selection::Focused(i) => if i == 0 {
                    Selection::Focused(len - 1)
                } else {
                    Selection::Focused(i - 1)
                },
            };
        }
    }

    /// Re-clamps the selection after the list was replaced by one of length
    /// `new_len`; the result always agrees with the new list.
    pub fn on_refresh(&mut self, new_len: usize)
        ensures
            *final(self) == old(self).spec_on_refresh(new_len as nat),
            final(self).valid(new_len as nat),
    {
        if new_len == 0 {
            *self = Selection::Empty;
        } else {
            *self = match *self {
                Selection::Empty => Selection::Focused(0),
                Selection::Focused(i) => if i >= new_len {
                    Selection::Focused(new_len - 1)
                } else {
                    Selection::Focused(i)
                },
            };
        }
    }

    /// Resets the selection for a newly displayed list: its first row when it
    /// has one, empty otherwise.
    pub fn switch_view(&mut self, new_len: usize)
        ensures
            *final(self) == (if new_len == 0 {
                Selection::Empty
            } else {
                Selection::Focused(0usize)
            }),
            final(self).valid(new_len as nat),
    {
        if new_len == 0 {
            *self = Selection::Empty;
        } else {
            *self = Selection::Focused(0);
        }
    }
}

} // verus!
