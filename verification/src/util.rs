//! Small display helpers shared by the renderer.
use vstd::prelude::*;

use crate::chars::push_char;

verus! {

/// The exclamation marks shown for a priority: the scale is reversed
/// for display, so high priority (1) shows the most marks.
pub open spec fn indicator_spec(value: u8) -> Seq<char> {
    if value == 1 {
        seq!['!', '!', '!']
    } else if value == 2 {
        seq!['!', '!']
    } else if value == 3 {
        seq!['!']
    } else {
        Seq::empty()
    }
}

pub struct Util;

impl Util {
    /// A title padded with one space on each side.
    pub fn get_spaced_title(title: &str) -> (r: String)
        ensures
            r@ == seq![' '] + title@ + seq![' '],
    {
        let mut r = String::new();
        push_char(&mut r, ' ');
        r.append(title);
        push_char(&mut r, ' ');
        proof {
            assert(r@ =~= seq![' '] + title@ + seq![' ']);
        }
        r
    }

    /// The priority indicator: "!!!" for 1, "!!" for 2, "!" for 3, and
    /// nothing for 0 (unset) or any other value.
    pub fn get_priority_indicator(value: u8) -> (r: String)
        ensures
            r@ == indicator_spec(value),
    {
        let mut r = String::new();
        let marks: usize = if value == 1 {
            3
        } else if value == 2 {
            2
        } else if value == 3 {
            1
        } else {
            0
        };
        let mut i: usize = 0;
        while i < marks
            invariant
                i <= marks,
                marks <= 3,
                r@.len() == i,
                forall|j: int| 0 <= j < i ==> r@[j] == '!',
            decreases marks - i,
        {
            push_char(&mut r, '!');
            i = i + 1;
        }
        proof {
            assert(r@ =~= indicator_spec(value));
        }
        r
    }
}

} // verus!
