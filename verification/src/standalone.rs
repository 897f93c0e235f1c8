use vstd::prelude::*;
use crate::alpha_beta::AlphaBeta;
use crate::recurrence::alpha_of;
use crate::recurrence::alpha_sum_to;
use crate::recurrence::beta_of;
use crate::recurrence::beta_sum_to;
use crate::recurrence::lemma_coeff_bounds;
use crate::recurrence::lemma_sum_bounds;

verus! {

/// A constant-memory walk over the symbolic sequence: no buffer is owned,
/// only a cursor and a limit. Any single term is recomputed on demand by
/// re-descending the recurrence from the canonical seeds, trading time for
/// space when the materialized buffer would not fit in memory.
pub struct StandaloneSequence {
    cur_term: u32,
    limit: u32,
}

/// Builds an on-demand evaluator whose sweep covers positions `1 ..= size`.
pub fn new_standalone(size: u32) -> (r: StandaloneSequence)
    ensures
        r.wf(),
        r.cursor() == 0,
        r.limit() == size,
{
    StandaloneSequence { cur_term: 0, limit: size }
}

impl StandaloneSequence {
    /// How many terms the cursor has already produced.
    pub closed spec fn cursor(&self) -> nat {
        self.cur_term as nat
    }

    /// Number of terms the sweep covers.
    pub closed spec fn limit(&self) -> nat {
        self.limit as nat
    }

    /// The cursor never passes the limit.
    pub closed spec fn wf(&self) -> bool {
        self.cur_term <= self.limit
    }

    /// Recomputes the coefficient pair at position `index` by re-descending
    /// the recurrence; no buffer is consulted or built. There is no
    /// memoization, so an even position spawns two sub-evaluations and the
    /// call tree grows geometrically with the depth of `index` — the
    /// deliberate price of constant memory.
    pub fn index(&self, index: u32) -> (r: AlphaBeta)
        requires
            index >= 1,
        ensures
            r.alpha == alpha_of(index as nat),
            r.beta == beta_of(index as nat),
        decreases index,
    {
        if index == 1 {
            AlphaBeta { alpha: 1, beta: 0 }
        } else if index == 2 {
            AlphaBeta { alpha: 0, beta: 1 }
        } else if index % 2 == 0 {
            let a = self.index(index / 2);
            let b = self.index(index / 2 + 1);
            proof {
                lemma_coeff_bounds((index / 2) as nat);
                lemma_coeff_bounds((index / 2 + 1) as nat);
            }
            a.add(b)
        } else {
            self.index((index - 1) / 2)
        }
    }

    /// Advances the cursor by one and returns the coefficients at the new
    /// position; reports exhaustion once the cursor reaches the limit and
    /// never steps past it.
    pub fn next(&mut self) -> (r: Option<AlphaBeta>)
        requires
            old(self).wf(),
        ensures
            final(self).wf(),
            final(self).limit() == old(self).limit(),
            old(self).cursor() == old(self).limit() ==> r is None && final(self).cursor() == old(
                self,
            ).cursor(),
            old(self).cursor() < old(self).limit() ==> {
                &&& final(self).cursor() == old(self).cursor() + 1
                &&& r matches Some(t) && t.alpha == alpha_of(final(self).cursor())
                &&& r matches Some(t) && t.beta == beta_of(final(self).cursor())
            },
    {
        if self.cur_term == self.limit {
            return None;
        }
        self.cur_term = self.cur_term + 1;
        Some(self.index(self.cur_term))
    }

    /// Totals the two coefficient streams over the positions the cursor has
    /// not visited yet, sweeping a copy of the evaluator with repeated
    /// `next`. Each stream accumulates in an integer of twice the coefficient
    /// width. The sweep re-derives every term, so its cost is geometric in
    /// the limit; it is offered for exactly the workloads where holding the
    /// buffer would cost too much memory.
    pub fn sum(&self) -> (r: (i128, i128))
        requires
            self.wf(),
        ensures
            r.0 == alpha_sum_to(self.limit()) - alpha_sum_to(self.cursor()),
            r.1 == beta_sum_to(self.limit()) - beta_sum_to(self.cursor()),
    {
        let mut sweep = StandaloneSequence { cur_term: self.cur_term, limit: self.limit };
        let mut alpha_total: i128 = 0;
        let mut beta_total: i128 = 0;
        while sweep.cur_term < sweep.limit
            invariant
                sweep.limit == self.limit,
                self.cur_term <= sweep.cur_term <= sweep.limit,
                alpha_total == alpha_sum_to(sweep.cur_term as nat) - alpha_sum_to(
                    self.cur_term as nat,
                ),
                beta_total == beta_sum_to(sweep.cur_term as nat) - beta_sum_to(
                    self.cur_term as nat,
                ),
            decreases sweep.limit - sweep.cur_term,
        {
            proof {
                lemma_sum_bounds((sweep.cur_term + 1) as nat);
                lemma_sum_bounds(sweep.cur_term as nat);
                lemma_sum_bounds(self.cur_term as nat);
                assert((sweep.cur_term + 1) * (sweep.cur_term + 1)
                    <= 0x1_0000_0000_0000_0000) by (nonlinear_arith)
                    requires
                        sweep.cur_term + 1 <= 0x1_0000_0000,
                ;
                assert((self.cur_term as int) * (self.cur_term as int)
                    <= 0x1_0000_0000_0000_0000) by (nonlinear_arith)
                    requires
                        self.cur_term <= 0x1_0000_0000,
                ;
            }
            match sweep.next() {
                Some(t) => {
                    alpha_total = alpha_total + (t.alpha as i128);
                    beta_total = beta_total + (t.beta as i128);
                },
                None => {},
            }
        }
        (alpha_total, beta_total)
    }
}

} // verus!
