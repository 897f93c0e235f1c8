use vstd::prelude::*;
use crate::alpha_beta::AlphaBeta;
use crate::sequence::Sequence;

verus! {

/// Total of the first-seed coefficients of a symbolic prefix.
pub open spec fn spec_alpha_total(s: Seq<AlphaBeta>) -> int
    decreases s.len(),
{
    if s.len() == 0 {
        0
    } else {
        spec_alpha_total(s.drop_last()) + s.last().alpha
    }
}

/// Total of the second-seed coefficients of a symbolic prefix.
pub open spec fn spec_beta_total(s: Seq<AlphaBeta>) -> int
    decreases s.len(),
{
    if s.len() == 0 {
        0
    } else {
        spec_beta_total(s.drop_last()) + s.last().beta
    }
}

/// Total of an integer prefix.
pub open spec fn spec_int_total(s: Seq<i64>) -> int
    decreases s.len(),
{
    if s.len() == 0 {
        0
    } else {
        spec_int_total(s.drop_last()) + s.last()
    }
}

/// Totals the two coefficient streams of a symbolic sequence independently,
/// each in an accumulator of twice the coefficient width: across
/// exponentially many terms the component totals outgrow the per-term range
/// long before the final combined scalar would. The caller applies its two
/// real weights to the two totals at the very end.
pub fn coefficient_sums(s: &Sequence) -> (r: (i128, i128))
    ensures
        r.0 == spec_alpha_total(s@),
        r.1 == spec_beta_total(s@),
{
    let mut alpha_total: i128 = 0;
    let mut beta_total: i128 = 0;
    let mut i: usize = 0;
    while i < s.len()
        invariant
            0 <= i <= s@.len(),
            alpha_total == spec_alpha_total(s@.take(i as int)),
            beta_total == spec_beta_total(s@.take(i as int)),
            -(i as int) * 0x8000_0000_0000_0000 <= alpha_total <= (i as int)
                * 0x7fff_ffff_ffff_ffff,
            -(i as int) * 0x8000_0000_0000_0000 <= beta_total <= (i as int)
                * 0x7fff_ffff_ffff_ffff,
        decreases s@.len() - i,
    {
        let t = s[i];
        proof {
            assert(s@.take(i as int + 1).drop_last() =~= s@.take(i as int));
            assert(s@.take(i as int + 1).last() == s@[i as int]);
        }
        alpha_total = alpha_total + (t.alpha as i128);
        beta_total = beta_total + (t.beta as i128);
        i = i + 1;
    }
    proof {
        assert(s@.take(s@.len() as int) =~= s@);
    }
    (alpha_total, beta_total)
}

/// Totals an integer sequence in an accumulator of twice the term width.
pub fn int_sum(s: &Vec<i64>) -> (r: i128)
    ensures
        r == spec_int_total(s@),
{
    let mut total: i128 = 0;
    let mut i: usize = 0;
    while i < s.len()
        invariant
            0 <= i <= s@.len(),
            total == spec_int_total(s@.take(i as int)),
            -(i as int) * 0x8000_0000_0000_0000 <= total <= (i as int) * 0x7fff_ffff_ffff_ffff,
        decreases s@.len() - i,
    {
        let t = s[i];
        proof {
            assert(s@.take(i as int + 1).drop_last() =~= s@.take(i as int));
            assert(s@.take(i as int + 1).last() == s@[i as int]);
        }
        total = total + (t as i128);
        i = i + 1;
    }
    proof {
        assert(s@.take(s@.len() as int) =~= s@);
    }
    total
}

/// Single linear scan for the extremes of an integer sequence. The running
/// minimum and maximum seed from the first element, never from a literal
/// zero, so an all-negative sequence reports a negative maximum instead of a
/// stray zero.
pub fn int_min_max(s: &Vec<i64>) -> (r: (i64, i64))
    requires
        s@.len() >= 1,
    ensures
        s@.contains(r.0),
        s@.contains(r.1),
        forall|j: int| 0 <= j < s@.len() ==> r.0 <= #[trigger] s@[j] <= r.1,
{
    let mut mn = s[0];
    let mut mx = s[0];
    let mut i: usize = 1;
    while i < s.len()
        invariant
            1 <= i <= s@.len(),
            exists|k: int| 0 <= k < i && s@[k] == mn,
            exists|k: int| 0 <= k < i && s@[k] == mx,
            forall|j: int| 0 <= j < i ==> mn <= #[trigger] s@[j] <= mx,
        decreases s@.len() - i,
    {
        let t = s[i];
        if t < mn {
            mn = t;
        }
        if t > mx {
            mx = t;
        }
        i = i + 1;
    }
    proof {
        let k1 = choose|k: int| 0 <= k < s@.len() && s@[k] == mn;
        assert(s@[k1] == mn);
        let k2 = choose|k: int| 0 <= k < s@.len() && s@[k] == mx;
        assert(s@[k2] == mx);
    }
    (mn, mx)
}

/// Linear scan collecting, in increasing order, every 0-indexed position
/// whose term equals `target` exactly — coefficient pairs are exact values,
/// so equality needs no tolerance. A target that occurs nowhere yields an
/// empty result, never an error.
pub fn find_indices(s: &Sequence, target: AlphaBeta) -> (r: Vec<usize>)
    ensures
        forall|k: int| 0 <= k < r@.len() ==> (#[trigger] r@[k]) < s@.len() && s@[r@[k] as int]
            == target,
        forall|k1: int, k2: int| 0 <= k1 < k2 < r@.len() ==> r@[k1] < r@[k2],
        forall|i: int| 0 <= i < s@.len() ==> (#[trigger] s@[i]) == target ==> r@.contains(
            i as usize,
        ),
        (forall|i: int| 0 <= i < s@.len() ==> (#[trigger] s@[i]) != target) ==> r@.len() == 0,
{
    let mut r: Vec<usize> = Vec::new();
    let mut i: usize = 0;
    while i < s.len()
        invariant
            0 <= i <= s@.len(),
            forall|k: int| 0 <= k < r@.len() ==> (#[trigger] r@[k]) < i && s@[r@[k] as int]
                == target,
            forall|k1: int, k2: int| 0 <= k1 < k2 < r@.len() ==> r@[k1] < r@[k2],
            forall|j: int| 0 <= j < i ==> (#[trigger] s@[j]) == target ==> r@.contains(j as usize),
        decreases s@.len() - i,
    {
        let ghost prev = r@;
        if s[i] == target {
            r.push(i);
        }
        proof {
            assert forall|j: int| 0 <= j < i + 1 && (#[trigger] s@[j]) == target implies r@
                .contains(j as usize) by {
                if j < i {
                    let k = choose|k: int| 0 <= k < prev.len() && prev[k] == j as usize;
                    assert(r@[k] == j as usize);
                } else {
                    assert(r@[r@.len() - 1] == j as usize);
                }
            }
        }
        i = i + 1;
    }
    proof {
        if r@.len() > 0 {
            assert(s@[r@[0] as int] == target);
        }
    }
    r
}

/// The integer-domain twin of [`find_indices`].
pub fn int_find_indices(s: &Vec<i64>, target: i64) -> (r: Vec<usize>)
    ensures
        forall|k: int| 0 <= k < r@.len() ==> (#[trigger] r@[k]) < s@.len() && s@[r@[k] as int]
            == target,
        forall|k1: int, k2: int| 0 <= k1 < k2 < r@.len() ==> r@[k1] < r@[k2],
        forall|i: int| 0 <= i < s@.len() ==> (#[trigger] s@[i]) == target ==> r@.contains(
            i as usize,
        ),
        (forall|i: int| 0 <= i < s@.len() ==> (#[trigger] s@[i]) != target) ==> r@.len() == 0,
{
    let mut r: Vec<usize> = Vec::new();
    let mut i: usize = 0;
    while i < s.len()
        invariant
            0 <= i <= s@.len(),
            forall|k: int| 0 <= k < r@.len() ==> (#[trigger] r@[k]) < i && s@[r@[k] as int]
                == target,
            forall|k1: int, k2: int| 0 <= k1 < k2 < r@.len() ==> r@[k1] < r@[k2],
            forall|j: int| 0 <= j < i ==> (#[trigger] s@[j]) == target ==> r@.contains(j as usize),
        decreases s@.len() - i,
    {
        let ghost prev = r@;
        if s[i] == target {
            r.push(i);
        }
        proof {
            assert forall|j: int| 0 <= j < i + 1 && (#[trigger] s@[j]) == target implies r@
                .contains(j as usize) by {
                if j < i {
                    let k = choose|k: int| 0 <= k < prev.len() && prev[k] == j as usize;
                    assert(r@[k] == j as usize);
                } else {
                    assert(r@[r@.len() - 1] == j as usize);
                }
            }
        }
        i = i + 1;
    }
    proof {
        if r@.len() > 0 {
            assert(s@[r@[0] as int] == target);
        }
    }
    r
}

} // verus!
