use vstd::prelude::*;
use vstd::arithmetic::power2::lemma2_to64;
use vstd::arithmetic::power2::lemma_pow2_strictly_increases;
use vstd::bits::lemma_u64_pow2_no_overflow;
use vstd::bits::lemma_u64_shl_is_mul;
use crate::alpha_beta::AlphaBeta;
use crate::alpha_beta::canonical_seeds;
use crate::errors::BowError;
use crate::recurrence::coeff_bound;
use crate::recurrence::follows_recurrence;
use crate::recurrence::int_follows_recurrence;
use crate::recurrence::int_term_matches;
use crate::recurrence::seq_len_of;
use crate::recurrence::term_matches;

verus! {

/// A materialized symbolic sequence: an ordered, homogeneous buffer of
/// coefficient pairs, conceptually 1-indexed (stored 0-indexed). It is grown
/// by appends only and treated as read-only once generation completes.
pub type Sequence = Vec<AlphaBeta>;

/// Largest row count the materialized path accepts. Row count 31 already
/// means `2^32 - 1` terms; anything above that must fail fast with
/// [`BowError::CapacityExceeded`] before an allocation is attempted, and the
/// caller can fall back to on-demand evaluation.
pub const MAX_ROW_COUNT: u32 = 31;

/// Magnitude of a machine integer, as a mathematical integer.
pub open spec fn abs64(x: i64) -> int {
    if x >= 0 {
        x as int
    } else {
        -(x as int)
    }
}

/// The larger of two mathematical integers.
pub open spec fn max2(a: int, b: int) -> int {
    if a >= b {
        a
    } else {
        b
    }
}

/// Largest coefficient magnitude among the two symbolic seeds. Every term the
/// recurrence grows from them stays within this magnitude times
/// [`coeff_bound`] of its position, which is how generation is shown free of
/// overflow.
pub open spec fn seed_magnitude(first: AlphaBeta, second: AlphaBeta) -> int {
    max2(
        max2(abs64(first.alpha), abs64(first.beta)),
        max2(abs64(second.alpha), abs64(second.beta)),
    )
}

/// Largest magnitude among the two integer seeds.
pub open spec fn int_seed_magnitude(first: i64, second: i64) -> int {
    max2(abs64(first), abs64(second))
}

/// Both coefficients of `t` lie within magnitude `b`.
pub open spec fn coeff_within(t: AlphaBeta, b: int) -> bool {
    -b <= t.alpha <= b && -b <= t.beta <= b
}

/// The integer term `x` lies within magnitude `b`.
pub open spec fn int_within(x: i64, b: int) -> bool {
    -b <= x <= b
}

/// The term count a row count implies, for the capacity report: exact while
/// it fits the widened type, saturated beyond that.
pub open spec fn capacity_report(row_count: nat) -> u64 {
    if row_count <= 62 {
        seq_len_of(row_count) as u64
    } else {
        u64::MAX
    }
}

/// Computes the term count `2^(row_count + 1) - 1` in a widened integer, so
/// the exponentiation itself cannot overflow before the capacity decision is
/// made.
pub fn sequence_length(row_count: u32) -> (r: u64)
    requires
        row_count <= 62,
    ensures
        r == seq_len_of(row_count as nat),
{
    let shift: u64 = (row_count + 1) as u64;
    proof {
        lemma_u64_pow2_no_overflow(shift as nat);
        lemma_u64_shl_is_mul(1u64, shift);
    }
    (1u64 << shift) - 1
}

proof fn lemma_len_cap(row_count: nat)
    requires
        row_count <= 31,
    ensures
        seq_len_of(row_count) <= 0xffff_ffff,
{
    lemma2_to64();
    if row_count < 31 {
        lemma_pow2_strictly_increases(row_count + 1, 32);
    }
}

/// The generation pass for the symbolic domain. Starting from the two seed
/// terms it appends positions `3 ..= 2^(row_count + 1) - 1` in one forward
/// sweep: both dependencies of position `n` lie strictly before `n`, so the
/// natural iteration order is already a valid dependency order. A row count
/// of zero keeps only the first seed.
///
/// The magnitude precondition is what machine arithmetic forces: it keeps
/// every coefficient the recurrence can produce inside the `i64` range. The
/// canonical seeds have magnitude 1, for which it always holds.
pub fn sequence_generator(row_count: u32, s: Sequence) -> (res: Sequence)
    requires
        s@.len() == 2,
        row_count <= MAX_ROW_COUNT,
        seed_magnitude(s@[0], s@[1]) * (seq_len_of(row_count as nat) - 1) <= i64::MAX,
    ensures
        res@.len() == seq_len_of(row_count as nat),
        res@[0] == s@[0],
        row_count >= 1 ==> res@[1] == s@[1],
        follows_recurrence(res@),
{
    let ghost m = seed_magnitude(s@[0], s@[1]);
    proof {
        lemma_len_cap(row_count as nat);
    }
    let length: u64 = sequence_length(row_count);
    if row_count == 0 {
        proof {
            lemma2_to64();
        }
        let mut res: Sequence = Vec::new();
        res.push(s[0]);
        return res;
    }
    assert(length >= 3) by {
        lemma2_to64();
        if row_count > 1 {
            lemma_pow2_strictly_increases(2, row_count as nat + 1);
        }
    }
    let mut res = s;
    let mut n: u64 = 3;
    while n <= length
        invariant
            3 <= n <= length + 1,
            res@.len() == n - 1,
            3 <= length <= 0xffff_ffff,
            length == seq_len_of(row_count as nat),
            res@[0] == s@[0],
            res@[1] == s@[1],
            follows_recurrence(res@),
            m == seed_magnitude(s@[0], s@[1]),
            m * (length - 1) <= i64::MAX,
            forall|j: int|
                0 <= j < res@.len() ==> coeff_within(#[trigger] res@[j], m * coeff_bound(j + 1)),
        decreases length + 1 - n,
    {
        let ghost prev = res@;
        let t: AlphaBeta;
        if n % 2 == 0 {
            let a = res[(n / 2 - 1) as usize];
            let b = res[(n / 2) as usize];
            proof {
                let x = coeff_bound((n / 2) as int);
                let y = coeff_bound((n / 2 + 1) as int);
                let z = coeff_bound(n as int);
                assert(coeff_within(a, m * x));
                assert(coeff_within(b, m * y));
                assert(m >= 0);
                assert(x + y <= z);
                assert(m * x + m * y <= m * z) by (nonlinear_arith)
                    requires
                        m >= 0,
                        x + y <= z,
                ;
                assert(m * z <= m * (length - 1)) by (nonlinear_arith)
                    requires
                        m >= 0,
                        z <= length - 1,
                ;
            }
            t = a.add(b);
        } else {
            t = res[((n - 1) / 2 - 1) as usize];
            proof {
                let x = coeff_bound(((n - 1) / 2) as int);
                let z = coeff_bound(n as int);
                assert(coeff_within(t, m * x));
                assert(m * x <= m * z) by (nonlinear_arith)
                    requires
                        m >= 0,
                        x <= z,
                ;
            }
        }
        res.push(t);
        proof {
            assert(coeff_within(t, m * coeff_bound(n as int)));
            assert forall|k: int| 3 <= k <= res@.len() implies term_matches(res@, k) by {
                if k < n {
                    assert(term_matches(prev, k));
                }
            }
        }
        n = n + 1;
    }
    res
}

/// The generation pass for the integer domain, the same forward sweep with
/// machine-integer addition in place of coefficient addition.
pub fn int_sequence_generator(row_count: u32, s: Vec<i64>) -> (res: Vec<i64>)
    requires
        s@.len() == 2,
        row_count <= MAX_ROW_COUNT,
        int_seed_magnitude(s@[0], s@[1]) * (seq_len_of(row_count as nat) - 1) <= i64::MAX,
    ensures
        res@.len() == seq_len_of(row_count as nat),
        res@[0] == s@[0],
        row_count >= 1 ==> res@[1] == s@[1],
        int_follows_recurrence(res@),
{
    let ghost m = int_seed_magnitude(s@[0], s@[1]);
    proof {
        lemma_len_cap(row_count as nat);
    }
    let length: u64 = sequence_length(row_count);
    if row_count == 0 {
        proof {
            lemma2_to64();
        }
        let mut res: Vec<i64> = Vec::new();
        res.push(s[0]);
        return res;
    }
    assert(length >= 3) by {
        lemma2_to64();
        if row_count > 1 {
            lemma_pow2_strictly_increases(2, row_count as nat + 1);
        }
    }
    let mut res = s;
    let mut n: u64 = 3;
    while n <= length
        invariant
            3 <= n <= length + 1,
            res@.len() == n - 1,
            3 <= length <= 0xffff_ffff,
            length == seq_len_of(row_count as nat),
            res@[0] == s@[0],
            res@[1] == s@[1],
            int_follows_recurrence(res@),
            m == int_seed_magnitude(s@[0], s@[1]),
            m * (length - 1) <= i64::MAX,
            forall|j: int|
                0 <= j < res@.len() ==> int_within(#[trigger] res@[j], m * coeff_bound(j + 1)),
        decreases length + 1 - n,
    {
        let ghost prev = res@;
        let t: i64;
        if n % 2 == 0 {
            let a = res[(n / 2 - 1) as usize];
            let b = res[(n / 2) as usize];
            proof {
                let x = coeff_bound((n / 2) as int);
                let y = coeff_bound((n / 2 + 1) as int);
                let z = coeff_bound(n as int);
                assert(int_within(a, m * x));
                assert(int_within(b, m * y));
                assert(m * x + m * y <= m * z) by (nonlinear_arith)
                    requires
                        m >= 0,
                        x + y <= z,
                ;
                assert(m * z <= m * (length - 1)) by (nonlinear_arith)
                    requires
                        m >= 0,
                        z <= length - 1,
                ;
            }
            t = a + b;
        } else {
            t = res[((n - 1) / 2 - 1) as usize];
            proof {
                let x = coeff_bound(((n - 1) / 2) as int);
                let z = coeff_bound(n as int);
                assert(int_within(t, m * x));
                assert(m * x <= m * z) by (nonlinear_arith)
                    requires
                        m >= 0,
                        x <= z,
                ;
            }
        }
        res.push(t);
        proof {
            assert(int_within(t, m * coeff_bound(n as int)));
            assert forall|k: int| 3 <= k <= res@.len() implies int_term_matches(res@, k) by {
                if k < n {
                    assert(int_term_matches(prev, k));
                }
            }
        }
        n = n + 1;
    }
    res
}

/// Capacity-checked entry to symbolic generation: a row count beyond
/// [`MAX_ROW_COUNT`] is rejected before any allocation, with the offending
/// term count in the error.
pub fn try_generate(row_count: u32, s: Sequence) -> (r: Result<Sequence, BowError>)
    requires
        s@.len() == 2,
        row_count <= MAX_ROW_COUNT ==> seed_magnitude(s@[0], s@[1]) * (seq_len_of(
            row_count as nat,
        ) - 1) <= i64::MAX,
    ensures
        match r {
            Ok(v) => {
                &&& row_count <= MAX_ROW_COUNT
                &&& v@.len() == seq_len_of(row_count as nat)
                &&& v@[0] == s@[0]
                &&& row_count >= 1 ==> v@[1] == s@[1]
                &&& follows_recurrence(v@)
            },
            Err(e) => {
                &&& row_count > MAX_ROW_COUNT
                &&& e == (BowError::CapacityExceeded { length: capacity_report(row_count as nat) })
            },
        },
{
    if row_count > MAX_ROW_COUNT {
        let length: u64 = if row_count <= 62 {
            sequence_length(row_count)
        } else {
            u64::MAX
        };
        Err(BowError::CapacityExceeded { length })
    } else {
        Ok(sequence_generator(row_count, s))
    }
}

/// Capacity-checked entry to integer generation.
pub fn try_generate_int(row_count: u32, s: Vec<i64>) -> (r: Result<Vec<i64>, BowError>)
    requires
        s@.len() == 2,
        row_count <= MAX_ROW_COUNT ==> int_seed_magnitude(s@[0], s@[1]) * (seq_len_of(
            row_count as nat,
        ) - 1) <= i64::MAX,
    ensures
        match r {
            Ok(v) => {
                &&& row_count <= MAX_ROW_COUNT
                &&& v@.len() == seq_len_of(row_count as nat)
                &&& v@[0] == s@[0]
                &&& row_count >= 1 ==> v@[1] == s@[1]
                &&& int_follows_recurrence(v@)
            },
            Err(e) => {
                &&& row_count > MAX_ROW_COUNT
                &&& e == (BowError::CapacityExceeded { length: capacity_report(row_count as nat) })
            },
        },
{
    if row_count > MAX_ROW_COUNT {
        let length: u64 = if row_count <= 62 {
            sequence_length(row_count)
        } else {
            u64::MAX
        };
        Err(BowError::CapacityExceeded { length })
    } else {
        Ok(int_sequence_generator(row_count, s))
    }
}

/// Explicit factory for the symbolic domain. Only the canonical seed pair is
/// accepted; anything else is rejected with a descriptive error rather than
/// silently producing a sequence whose aggregate shortcuts would be wrong.
pub fn seed_alphabeta(first: AlphaBeta, second: AlphaBeta) -> (r: Result<Sequence, BowError>)
    ensures
        match r {
            Ok(v) => {
                &&& canonical_seeds(first, second)
                &&& v@.len() == 2
                &&& v@[0] == first
                &&& v@[1] == second
            },
            Err(e) => !canonical_seeds(first, second) && e == BowError::NonCanonicalSeeds,
        },
{
    if first.alpha == 1 && first.beta == 0 && second.alpha == 0 && second.beta == 1 {
        let mut v: Sequence = Vec::new();
        v.push(first);
        v.push(second);
        Ok(v)
    } else {
        Err(BowError::NonCanonicalSeeds)
    }
}

/// Factory for the integer domain: any two machine integers may seed it.
pub fn seed_int(first: i64, second: i64) -> (r: Vec<i64>)
    ensures
        r@.len() == 2,
        r@[0] == first,
        r@[1] == second,
{
    let mut v: Vec<i64> = Vec::new();
    v.push(first);
    v.push(second);
    v
}

/// Checked 1-indexed access for external callers. Inside generation the
/// recurrence invariant makes every lookup in bounds by construction, but the
/// domain boundary still validates explicitly.
pub fn term_at(s: &Sequence, n: usize) -> (r: Result<AlphaBeta, BowError>)
    ensures
        1 <= n <= s@.len() ==> r == Ok::<AlphaBeta, BowError>(s@[n - 1]),
        !(1 <= n <= s@.len()) ==> r == Err::<AlphaBeta, BowError>(BowError::IndexOutOfRange),
{
    if n >= 1 && n <= s.len() {
        Ok(s[n - 1])
    } else {
        Err(BowError::IndexOutOfRange)
    }
}

} // verus!
