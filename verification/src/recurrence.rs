use vstd::prelude::*;
use vstd::arithmetic::power2::pow2;
use crate::alpha_beta::AlphaBeta;

verus! {

/// Number of terms a run of `row_count` rows materializes: the complete
/// binary tree with `row_count + 1` levels holds `2^(row_count + 1) - 1`
/// positions.
pub open spec fn seq_len_of(row_count: nat) -> nat {
    (pow2(row_count + 1) - 1) as nat
}

/// Coefficient on the first seed at 1-indexed position `n` of the symbolic
/// sequence grown from the canonical seeds `(1, 0)` and `(0, 1)`.
pub open spec fn alpha_of(n: nat) -> int
    decreases n,
{
    if n <= 1 {
        1
    } else if n == 2 {
        0
    } else if n % 2 == 0 {
        alpha_of((n / 2) as nat) + alpha_of((n / 2 + 1) as nat)
    } else {
        alpha_of(((n - 1) / 2) as nat)
    }
}

/// Coefficient on the second seed at 1-indexed position `n`.
pub open spec fn beta_of(n: nat) -> int
    decreases n,
{
    if n <= 1 {
        0
    } else if n == 2 {
        1
    } else if n % 2 == 0 {
        beta_of((n / 2) as nat) + beta_of((n / 2 + 1) as nat)
    } else {
        beta_of(((n - 1) / 2) as nat)
    }
}

/// An inductive ceiling for the coefficients at position `n`: both stay
/// non-negative and their sum never exceeds `max(1, n - 1)`.
pub open spec fn coeff_bound(n: int) -> int {
    if n <= 2 {
        1
    } else {
        n - 1
    }
}

/// The coefficients grown from the canonical seeds are non-negative and
/// bounded by [`coeff_bound`], so they stay far inside the `i64` range for
/// every addressable position.
pub proof fn lemma_coeff_bounds(n: nat)
    requires
        n >= 1,
    ensures
        0 <= alpha_of(n),
        0 <= beta_of(n),
        alpha_of(n) + beta_of(n) <= coeff_bound(n as int),
    decreases n,
{
    if n <= 2 {
    } else if n % 2 == 0 {
        lemma_coeff_bounds((n / 2) as nat);
        lemma_coeff_bounds((n / 2 + 1) as nat);
    } else {
        lemma_coeff_bounds(((n - 1) / 2) as nat);
    }
}

/// The recurrence at 1-indexed position `n` of a symbolic sequence: an even
/// position adds the terms at `n / 2` and `n / 2 + 1`, an odd one copies the
/// term at `(n - 1) / 2`.
pub open spec fn term_matches(s: Seq<AlphaBeta>, n: int) -> bool {
    if n % 2 == 0 {
        s[n - 1].alpha == s[n / 2 - 1].alpha + s[n / 2].alpha
            && s[n - 1].beta == s[n / 2 - 1].beta + s[n / 2].beta
    } else {
        s[n - 1] == s[(n - 1) / 2 - 1]
    }
}

/// Every position from 3 on satisfies the recurrence.
pub open spec fn follows_recurrence(s: Seq<AlphaBeta>) -> bool {
    forall|n: int| 3 <= n <= s.len() ==> #[trigger] term_matches(s, n)
}

/// The recurrence at position `n` of an integer sequence.
pub open spec fn int_term_matches(s: Seq<i64>, n: int) -> bool {
    if n % 2 == 0 {
        s[n - 1] == s[n / 2 - 1] + s[n / 2]
    } else {
        s[n - 1] == s[(n - 1) / 2 - 1]
    }
}

/// Every position from 3 on of an integer sequence satisfies the recurrence.
pub open spec fn int_follows_recurrence(s: Seq<i64>) -> bool {
    forall|n: int| 3 <= n <= s.len() ==> #[trigger] int_term_matches(s, n)
}

/// On-demand evaluation agrees with the materialized store: in any sequence
/// that starts from the canonical seeds and satisfies the recurrence, the
/// term at position `n` carries exactly the coefficients `alpha_of(n)` /
/// `beta_of(n)` that the recursive descent computes.
pub proof fn lemma_index_matches_sequence(s: Seq<AlphaBeta>, n: int)
    requires
        s.len() >= 1,
        s[0].alpha == 1 && s[0].beta == 0,
        s.len() >= 2 ==> s[1].alpha == 0 && s[1].beta == 1,
        follows_recurrence(s),
        1 <= n <= s.len(),
    ensures
        s[n - 1].alpha == alpha_of(n as nat),
        s[n - 1].beta == beta_of(n as nat),
    decreases n,
{
    if n <= 2 {
    } else {
        assert(term_matches(s, n));
        if n % 2 == 0 {
            lemma_index_matches_sequence(s, n / 2);
            lemma_index_matches_sequence(s, n / 2 + 1);
        } else {
            lemma_index_matches_sequence(s, (n - 1) / 2);
        }
    }
}

/// The recurrence pins a term down once the seeds are fixed: position `n`
/// holds the same value in any two sequences that agree on their seeds and
/// both satisfy the recurrence.
pub proof fn lemma_term_deterministic(s1: Seq<AlphaBeta>, s2: Seq<AlphaBeta>, n: int)
    requires
        follows_recurrence(s1),
        follows_recurrence(s2),
        1 <= n <= s1.len(),
        n <= s2.len(),
        s1[0] == s2[0],
        s1.len() >= 2 && s2.len() >= 2 ==> s1[1] == s2[1],
    ensures
        s1[n - 1] == s2[n - 1],
    decreases n,
{
    if n <= 2 {
    } else {
        assert(term_matches(s1, n));
        assert(term_matches(s2, n));
        if n % 2 == 0 {
            lemma_term_deterministic(s1, s2, n / 2);
            lemma_term_deterministic(s1, s2, n / 2 + 1);
        } else {
            lemma_term_deterministic(s1, s2, (n - 1) / 2);
        }
    }
}

/// Generation is deterministic: identical seeds grown to the same length give
/// identical sequences, element for element. There is no hidden source of
/// variation in the recurrence.
pub proof fn lemma_generation_deterministic(s1: Seq<AlphaBeta>, s2: Seq<AlphaBeta>)
    requires
        follows_recurrence(s1),
        follows_recurrence(s2),
        s1.len() == s2.len(),
        s1.len() >= 1 ==> s1[0] == s2[0],
        s1.len() >= 2 ==> s1[1] == s2[1],
    ensures
        s1 =~= s2,
{
    assert forall|i: int| 0 <= i < s1.len() implies s1[i] == s2[i] by {
        lemma_term_deterministic(s1, s2, i + 1);
    }
}

/// Running total of the first-seed coefficients over positions `1 ..= n`.
pub open spec fn alpha_sum_to(n: nat) -> int
    decreases n,
{
    if n == 0 {
        0
    } else {
        alpha_sum_to((n - 1) as nat) + alpha_of(n)
    }
}

/// Running total of the second-seed coefficients over positions `1 ..= n`.
pub open spec fn beta_sum_to(n: nat) -> int
    decreases n,
{
    if n == 0 {
        0
    } else {
        beta_sum_to((n - 1) as nat) + beta_of(n)
    }
}

/// The coefficient totals stay between 0 and `n * n`, so a 128-bit
/// accumulator can never overflow while sweeping the sequence.
pub proof fn lemma_sum_bounds(n: nat)
    ensures
        0 <= alpha_sum_to(n) <= n * n,
        0 <= beta_sum_to(n) <= n * n,
    decreases n,
{
    if n == 0 {
    } else {
        lemma_sum_bounds((n - 1) as nat);
        lemma_coeff_bounds(n);
        assert((n - 1) * (n - 1) + n <= n * n) by (nonlinear_arith)
            requires
                n >= 1,
        ;
    }
}

} // verus!
