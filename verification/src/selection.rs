//! Character-offset selections and their normalization.
//!
//! A selection is a pair of character offsets into a text buffer. Clients
//! compute selections against a buffer that may have changed length in the
//! meantime, so an out-of-range or inverted selection is corrected, never
//! rejected: the pair is reordered so the low end comes first and both ends
//! are clamped into `[0, buffer length]`.

use vstd::prelude::*;

verus! {

/// A pair of character offsets into a buffer, as supplied by a client.
/// `start` and `end` may come in either order and may exceed the buffer
/// length; [`normalize`] corrects both.
#[derive(Clone, Copy, PartialEq, Eq, Structural, Debug)]
pub struct Selection {
    pub start: usize,
    pub end: usize,
}

/// The low end of a normalized selection: `min(start, end)` clamped to `len`.
pub open spec fn norm_lo(start: int, end: int, len: int) -> int {
    let lo = if start <= end { start } else { end };
    if lo <= len { lo } else { len }
}

/// The high end of a normalized selection: `max(start, end)` clamped to `len`.
pub open spec fn norm_hi(start: int, end: int, len: int) -> int {
    let hi = if start <= end { end } else { start };
    if hi <= len { hi } else { len }
}

/// Normalizes a raw `(start, end)` pair against a buffer of `len` characters:
/// reorders it so the low end comes first, then clamps both ends into
/// `[0, len]`. Never fails; a degenerate input yields a valid empty or
/// boundary range.
pub fn normalize(start: usize, end: usize, len: usize) -> (r: (usize, usize))
    ensures
        r.0 == norm_lo(start as int, end as int, len as int),
        r.1 == norm_hi(start as int, end as int, len as int),
        r.0 <= r.1 <= len,
{
    let lo = if start <= end { start } else { end };
    let hi = if start <= end { end } else { start };
    let lo = if lo <= len { lo } else { len };
    let hi = if hi <= len { hi } else { len };
    (lo, hi)
}

impl Selection {
    /// The selection as a half-open range, low end first.
    pub fn to_range(&self) -> (r: core::ops::Range<usize>)
        ensures
            r.start == if self.start <= self.end { self.start } else { self.end },
            r.end == if self.start <= self.end { self.end } else { self.start },
            r.start <= r.end,
    {
        let lo = if self.start <= self.end { self.start } else { self.end };
        let hi = if self.start <= self.end { self.end } else { self.start };
        lo..hi
    }

    /// Clamps both ends of the selection into `[lo_bound, hi_bound]`,
    /// keeping their order.
    pub fn clamp(self, lo_bound: usize, hi_bound: usize) -> (r: Selection)
        ensures
            r.start == clamped(self.start as int, lo_bound as int, hi_bound as int),
            r.end == clamped(self.end as int, lo_bound as int, hi_bound as int),
    {
        let s = if self.start <= hi_bound { self.start } else { hi_bound };
        let s = if s >= lo_bound { s } else { lo_bound };
        let e = if self.end <= hi_bound { self.end } else { hi_bound };
        let e = if e >= lo_bound { e } else { lo_bound };
        Selection { start: s, end: e }
    }
}

/// `v` moved into `[lo, hi]`: first capped above at `hi`, then below at `lo`,
/// exactly as `clamp` applies its bounds.
pub open spec fn clamped(v: int, lo: int, hi: int) -> int {
    let capped = if v <= hi { v } else { hi };
    if capped >= lo { capped } else { lo }
}

/// Normalization always yields an ordered range inside the buffer:
/// `0 <= lo <= hi <= len`, whatever the raw pair was.
pub proof fn lemma_normalize_in_bounds(start: int, end: int, len: int)
    requires
        0 <= start,
        0 <= end,
        0 <= len,
    ensures
        0 <= norm_lo(start, end, len),
        norm_lo(start, end, len) <= norm_hi(start, end, len),
        norm_hi(start, end, len) <= len,
{
}

} // verus!
