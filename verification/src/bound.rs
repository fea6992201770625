//! An alpha-beta window: a pair of scores.

use vstd::prelude::*;

use crate::score::{neg_value, valid_score, Eval};

verus! {

/// An alpha-beta window. Negating it swaps and negates the two ends.
#[derive(Debug, Clone, Copy, PartialEq, Eq, Structural, Hash)]
pub struct Bound {
    pub alpha: Eval,
    pub beta: Eval,
}

/// The negation of a window: the window the opponent sees.
pub open spec fn neg_bound(b: Bound) -> Bound {
    Bound { alpha: Eval(neg_value(b.beta.0)), beta: Eval(neg_value(b.alpha.0)) }
}

impl Bound {
    pub fn new(alpha: Eval, beta: Eval) -> (r: Bound)
        ensures
            r.alpha == alpha,
            r.beta == beta,
    {
        Bound { alpha, beta }
    }

    /// The full window, from the lowest score to the highest.
    pub fn min_max() -> (r: Bound)
        ensures
            r.alpha.0 == crate::score::MIN_SCORE,
            r.beta.0 == crate::score::MAX_SCORE,
    {
        Bound { alpha: Eval(crate::score::MIN_SCORE), beta: Eval(crate::score::MAX_SCORE) }
    }

    /// Swap and negate the two ends.
    pub fn neg(self) -> (r: Bound)
        ensures
            r == neg_bound(self),
    {
        Bound { alpha: self.beta.neg(), beta: self.alpha.neg() }
    }

    /// A window of `aw` below and `bw` above a guess, saturating at the
    /// ends of the 16-bit word.
    pub fn from_window(g: Eval, aw: i16, bw: i16) -> (r: Bound)
        ensures
            r.alpha.0 == saturate_i16(g.0 - aw),
            r.beta.0 == saturate_i16(g.0 + bw),
    {
        let alpha = Eval(sat_sub(g.0, aw));
        let beta = Eval(sat_add(g.0, bw));
        Bound { alpha, beta }
    }

    /// Move the lower end to `by` below `orig`, saturating.
    pub fn widen_window_alpha(&mut self, orig: Eval, by: i16)
        ensures
            final(self).alpha.0 == saturate_i16(orig.0 - by),
            final(self).beta == old(self).beta,
    {
        self.alpha = Eval(sat_sub(orig.0, by));
    }

    /// Move the upper end to `by` above `orig`, saturating.
    pub fn widen_window_beta(&mut self, orig: Eval, by: i16)
        ensures
            final(self).beta.0 == saturate_i16(orig.0 + by),
            final(self).alpha == old(self).alpha,
    {
        self.beta = Eval(sat_add(orig.0, by));
    }

    /// Raise the lower end to `best` if that is higher.
    pub fn update_alpha(&mut self, best: Eval)
        ensures
            final(self).alpha.0 == if best.0 > old(self).alpha.0 { best.0 } else { old(self).alpha.0 },
            final(self).beta == old(self).beta,
    {
        if best.0 > self.alpha.0 {
            self.alpha = best;
        }
    }
}

/// Subtraction saturating at the ends of the 16-bit range.
pub fn sat_sub(a: i16, b: i16) -> (r: i16)
    ensures
        r == saturate_i16(a - b),
{
    let v = a as i32 - b as i32;
    if v > 0x7fff {
        0x7fff
    } else if v < -0x8000 {
        (-0x8000) as i16
    } else {
        v as i16
    }
}

/// Addition saturating at the ends of the 16-bit range.
pub fn sat_add(a: i16, b: i16) -> (r: i16)
    ensures
        r == saturate_i16(a + b),
{
    let v = a as i32 + b as i32;
    if v > 0x7fff {
        0x7fff
    } else if v < -0x8000 {
        (-0x8000) as i16
    } else {
        v as i16
    }
}

/// Clamp a mathematical integer into the 16-bit range.
pub open spec fn saturate_i16(v: int) -> i16 {
    if v > 0x7fff {
        0x7fff
    } else if v < -0x8000 {
        (-0x8000) as i16
    } else {
        v as i16
    }
}

/// Law: negating a window twice gives the window back, as long as both
/// ends are valid scores.
pub proof fn lemma_bound_neg_involution(b: Bound)
    requires
        valid_score(b.alpha.0),
        valid_score(b.beta.0),
    ensures
        neg_bound(neg_bound(b)) == b,
{
    crate::score::lemma_neg_involution(b.alpha.0);
    crate::score::lemma_neg_involution(b.beta.0);
}

} // verus!
