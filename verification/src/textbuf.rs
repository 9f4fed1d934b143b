//! Range-based text mutation: splicing an insertion into a buffer at a
//! normalized selection.

use vstd::prelude::*;
use vstd::string::*;
use crate::selection::{norm_lo, norm_hi, normalize, Selection};

verus! {

/// `text` with the characters of its normalized `(start, end)` selection
/// replaced by `ins`: the selection is reordered and clamped against
/// `text.len()` first, so every raw pair denotes a valid sub-range.
pub open spec fn spliced(text: Seq<char>, start: int, end: int, ins: Seq<char>) -> Seq<char> {
    let lo = norm_lo(start, end, text.len() as int);
    let hi = norm_hi(start, end, text.len() as int);
    text.subrange(0, lo) + ins + text.subrange(hi, text.len() as int)
}

/// Replaces the sub-range of `text` denoted by `selection` (normalized
/// against the character length of `text`) with `ins`.
pub fn splice_text(text: &String, selection: Selection, ins: &String) -> (r: String)
    ensures
        r@ == spliced(text@, selection.start as int, selection.end as int, ins@),
{
    let len = text.as_str().unicode_len();
    let (lo, hi) = normalize(selection.start, selection.end, len);
    let first = text.as_str().substring_char(0, lo);
    let third = text.as_str().substring_char(hi, len);
    let mut r = String::from_str(first);
    r.append(ins.as_str());
    r.append(third);
    r
}

/// A replace is locally deterministic: against one and the same buffer
/// state, two selections that normalize alike splice the same insertion to
/// the same result. (Across a state change the outcome may differ, since
/// normalization depends on the buffer's current length.)
pub proof fn lemma_replace_deterministic(
    b: Seq<char>,
    s1: int,
    e1: int,
    s2: int,
    e2: int,
    t: Seq<char>,
)
    requires
        norm_lo(s1, e1, b.len() as int) == norm_lo(s2, e2, b.len() as int),
        norm_hi(s1, e1, b.len() as int) == norm_hi(s2, e2, b.len() as int),
    ensures
        spliced(b, s1, e1, t) == spliced(b, s2, e2, t),
{
}

} // verus!
