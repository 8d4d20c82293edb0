//! The selection model: a "currently highlighted index" cursor over a
//! list of N items, with wraparound next/previous movement. With N = 0
//! both moves are no-ops; callers guard list-dependent commands.
use vstd::prelude::*;

verus! {

/// A cursor over a displayed list.
#[derive(Clone, Copy, PartialEq, Eq, Structural, Debug)]
pub struct Cursor {
    pub selected: Option<usize>,
}

/// Where `next` moves a cursor over `len` items: unset becomes 0, the
/// last index wraps to 0, anything else advances by one. Empty lists
/// are left untouched.
pub open spec fn next_spec(c: Option<usize>, len: usize) -> Option<usize> {
    if len == 0 {
        c
    } else {
        match c {
            None => Some(0usize),
            Some(i) => if i >= len - 1 {
                Some(0usize)
            } else {
                Some((i + 1) as usize)
            },
        }
    }
}

/// Where `previous` moves a cursor over `len` items: unset becomes 0,
/// index 0 wraps to the last index, anything else retreats by one.
/// Empty lists are left untouched.
pub open spec fn prev_spec(c: Option<usize>, len: usize) -> Option<usize> {
    if len == 0 {
        c
    } else {
        match c {
            None => Some(0usize),
            Some(i) => if i == 0 {
                Some((len - 1) as usize)
            } else {
                Some((i - 1) as usize)
            },
        }
    }
}

/// `next` applied `n` times.
pub open spec fn next_iter(c: Option<usize>, len: usize, n: nat) -> Option<usize>
    decreases n,
{
    if n == 0 {
        c
    } else {
        next_spec(next_iter(c, len, (n - 1) as nat), len)
    }
}

impl Cursor {
    /// A fresh cursor, highlighting index 0 (even over an empty list,
    /// as the interface starts).
    pub fn new() -> (r: Self)
        ensures
            r.selected == Some(0usize),
    {
        Cursor { selected: Some(0) }
    }

    /// A valid cursor is set, and in range whenever the list is not empty.
    pub open spec fn in_range(self, len: usize) -> bool {
        match self.selected {
            Some(i) => len == 0 || i < len,
            None => false,
        }
    }

    /// Move to the next item, wrapping at the end.
    pub fn next(&mut self, len: usize)
        ensures
            final(self).selected == next_spec(old(self).selected, len),
    {
        if len == 0 {
            return ;
        }
        let i: usize = match self.selected {
            Some(i) => if i >= len - 1 {
                0
            } else {
                i + 1
            },
            None => 0,
        };
        self.selected = Some(i);
    }

    /// Move to the previous item, wrapping at the start.
    pub fn previous(&mut self, len: usize)
        ensures
            final(self).selected == prev_spec(old(self).selected, len),
    {
        if len == 0 {
            return ;
        }
        let i: usize = match self.selected {
            Some(i) => if i == 0 {
                len - 1
            } else {
                i - 1
            },
            None => 0,
        };
        self.selected = Some(i);
    }

    /// Point the cursor at an index.
    pub fn select(&mut self, i: usize)
        ensures
            final(self).selected == Some(i),
    {
        self.selected = Some(i);
    }

    /// Step back one index, stopping at 0 (used after a delete).
    pub fn select_previous(&mut self)
        ensures
            final(self).selected == (match old(self).selected {
                Some(i) => Some((if i == 0 {
                    0
                } else {
                    (i - 1) as usize
                }) as usize),
                None => Some(0usize),
            }),
    {
        let i: usize = match self.selected {
            Some(i) => if i == 0 {
                0
            } else {
                i - 1
            },
            None => 0,
        };
        self.selected = Some(i);
    }

    /// The highlighted index, if any.
    pub fn selected(&self) -> (r: Option<usize>)
        ensures
            r == self.selected,
    {
        self.selected
    }
}

/// Starting from index 0 and stepping `next` once per item walks the
/// whole list and comes back to index 0.
pub proof fn lemma_next_cycle(len: usize)
    ensures
        next_iter(Some(0usize), len, len as nat) == Some(0usize),
{
    if len > 0 {
        lemma_next_reaches(len, (len - 1) as nat);
        assert(next_iter(Some(0usize), len, len as nat) == next_spec(
            next_iter(Some(0usize), len, (len - 1) as nat),
            len,
        ));
    }
}

/// Stepping `next` k < len times from index 0 lands on index k.
proof fn lemma_next_reaches(len: usize, k: nat)
    requires
        k < len,
    ensures
        next_iter(Some(0usize), len, k) == Some(k as usize),
    decreases k,
{
    if k > 0 {
        lemma_next_reaches(len, (k - 1) as nat);
    }
}

/// On a valid cursor, `previous` undoes `next` and `next` undoes
/// `previous`.
pub proof fn lemma_prev_inverse(c: Cursor, len: usize)
    requires
        c.in_range(len),
    ensures
        prev_spec(next_spec(c.selected, len), len) == c.selected,
        next_spec(prev_spec(c.selected, len), len) == c.selected,
{
}

} // verus!
