use vstd::prelude::*;

verus! {

/// A symbolic linear form `alpha * A + beta * B` for caller-supplied real
/// weights `A` and `B`. Only the two integer coefficients are stored; the
/// weights are applied outside the verified core. The recurrence produces new
/// pairs by addition alone, so pairs grown from the canonical seeds keep
/// non-negative coefficients, but the type itself places no such restriction.
#[derive(Clone, Copy, Debug, PartialEq, Eq, Structural)]
pub struct AlphaBeta {
    pub alpha: i64,
    pub beta: i64,
}

impl AlphaBeta {
    /// Component-wise coefficient addition, the only way new pairs arise.
    pub fn add(self, other: AlphaBeta) -> (r: AlphaBeta)
        requires
            i64::MIN <= self.alpha + other.alpha <= i64::MAX,
            i64::MIN <= self.beta + other.beta <= i64::MAX,
        ensures
            r.alpha == self.alpha + other.alpha,
            r.beta == self.beta + other.beta,
    {
        AlphaBeta { alpha: self.alpha + other.alpha, beta: self.beta + other.beta }
    }
}

/// The canonical seed pair of the symbolic domain: position 1 carries
/// `(1, 0)` and position 2 carries `(0, 1)`.
pub open spec fn canonical_seeds(first: AlphaBeta, second: AlphaBeta) -> bool {
    first.alpha == 1 && first.beta == 0 && second.alpha == 0 && second.beta == 1
}

} // verus!
