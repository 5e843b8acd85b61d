//! The terminal's size, and the padding that fills a line to its width.
use vstd::prelude::*;
use crate::row::{row_width, lemma_width_take_step, lemma_take_all};
use crate::text::{spaces, push_spaces};
use crate::width::grapheme_width;

verus! {

/// The size of the terminal, in columns and lines.
pub struct Terminal {
    pub width: u16,
    pub height: u16,
}

/// What is left of `total` columns once `used` are taken (none when `used`
/// reaches `total`).
pub open spec fn room(total: nat, used: nat) -> nat {
    if used >= total {
        0
    } else {
        (total - used) as nat
    }
}

/// The width of a text in columns, the sum of its characters' widths,
/// saturated at `usize::MAX`.
pub fn text_width(s: &Vec<char>) -> (w: usize)
    ensures
        w == (if row_width(s@) > usize::MAX {
            usize::MAX as nat
        } else {
            row_width(s@)
        }),
{
    let mut total: usize = 0;
    let mut k: usize = 0;
    while k < s.len()
        invariant
            k <= s.len(),
            total == (if row_width(s@.take(k as int)) > usize::MAX {
                usize::MAX as nat
            } else {
                row_width(s@.take(k as int))
            }),
        decreases s.len() - k,
    {
        let w = grapheme_width(s[k]);
        proof {
            lemma_width_take_step(s@, k as int);
        }
        total = total.saturating_add(w);
        k += 1;
    }
    proof {
        lemma_take_all(s@);
    }
    total
}

impl Terminal {
    /// A terminal of the given size.
    pub fn new(width: u16, height: u16) -> (t: Terminal)
        ensures
            t.width == width,
            t.height == height,
    {
        Terminal { width, height }
    }

    /// Spaces that fill a line holding `text` up to the terminal's width.
    pub fn align_left(&self, text: &Vec<char>) -> (r: Vec<char>)
        ensures
            r@ == spaces(room(self.width as nat, row_width(text@))),
    {
        let used = text_width(text);
        let pad = (self.width as usize).saturating_sub(used);
        let mut r = Vec::new();
        push_spaces(&mut r, pad);
        assert(r@ =~= spaces(room(self.width as nat, row_width(text@))));
        r
    }

    /// Spaces that fill a line holding `left` and `right` up to the
    /// terminal's width.
    pub fn align_break(&self, left: &Vec<char>, right: &Vec<char>) -> (r: Vec<char>)
        ensures
            r@ == spaces(room(self.width as nat, row_width(left@) + row_width(right@))),
    {
        let used = text_width(left).saturating_add(text_width(right));
        let pad = (self.width as usize).saturating_sub(used);
        let mut r = Vec::new();
        push_spaces(&mut r, pad);
        assert(r@ =~= spaces(room(self.width as nat, row_width(left@) + row_width(right@))));
        r
    }
}

} // verus!
