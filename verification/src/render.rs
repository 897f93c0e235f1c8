use vstd::prelude::*;
use crate::alpha_beta::AlphaBeta;
use crate::sequence::Sequence;
use crate::term::Term;

verus! {

/// Decimal digits of `n`, most significant first, as ASCII bytes.
pub open spec fn dec_rep(n: nat) -> Seq<u8>
    decreases n,
{
    if n < 10 {
        seq![(48 + n) as u8]
    } else {
        dec_rep(n / 10).push((48 + n % 10) as u8)
    }
}

/// Decimal rendering of a signed value: a leading minus sign, then digits.
pub open spec fn int_rep(n: int) -> Seq<u8> {
    if n < 0 {
        seq![45u8] + dec_rep((-n) as nat)
    } else {
        dec_rep(n as nat)
    }
}

/// The wire form of one coefficient pair: `"{alpha}a+{beta}b"`, exactly.
/// This text is the sole contract with the external row-formatting
/// collaborator; any change to it breaks that boundary.
pub open spec fn alpha_beta_rep(t: AlphaBeta) -> Seq<u8> {
    int_rep(t.alpha as int) + seq![97u8, 43u8] + int_rep(t.beta as int) + seq![98u8]
}

/// The wire form of one term: integers render as their literal value,
/// coefficient pairs in their symbolic form.
pub open spec fn term_rep(t: Term) -> Seq<u8> {
    match t {
        Term::Integer(v) => int_rep(v as int),
        Term::AlphaBeta(p) => alpha_beta_rep(p),
    }
}

/// The wire form of a whole sequence: every term in index order,
/// space-separated.
pub open spec fn sequence_rep(s: Seq<AlphaBeta>) -> Seq<u8>
    decreases s.len(),
{
    if s.len() == 0 {
        Seq::empty()
    } else if s.len() == 1 {
        alpha_beta_rep(s[0])
    } else {
        sequence_rep(s.drop_last()) + seq![32u8] + alpha_beta_rep(s.last())
    }
}

/// Appends the decimal digits of `n`, most significant first.
fn push_dec(n: u64, out: &mut Vec<u8>)
    ensures
        final(out)@ == old(out)@ + dec_rep(n as nat),
    decreases n,
{
    if n < 10 {
        out.push((48 + n) as u8);
        proof {
            assert(out@ =~= old(out)@ + dec_rep(n as nat));
        }
    } else {
        push_dec(n / 10, out);
        out.push((48 + (n % 10)) as u8);
        proof {
            assert(out@ =~= old(out)@ + dec_rep(n as nat));
        }
    }
}

/// Renders a signed machine integer in decimal.
pub fn render_i64(n: i64) -> (r: Vec<u8>)
    ensures
        r@ == int_rep(n as int),
{
    let mut out: Vec<u8> = Vec::new();
    if n < 0 {
        out.push(45);
        let mag: u64 = (-(n as i128)) as u64;
        push_dec(mag, &mut out);
        proof {
            assert(out@ =~= int_rep(n as int));
        }
    } else {
        push_dec(n as u64, &mut out);
        proof {
            assert(out@ =~= int_rep(n as int));
        }
    }
    out
}

impl AlphaBeta {
    /// Renders the pair in its exact wire form `"{alpha}a+{beta}b"`.
    pub fn render(&self) -> (r: Vec<u8>)
        ensures
            r@ == alpha_beta_rep(*self),
    {
        let mut out = render_i64(self.alpha);
        out.push(97);
        out.push(43);
        let mut tail = render_i64(self.beta);
        out.append(&mut tail);
        out.push(98);
        proof {
            assert(out@ =~= alpha_beta_rep(*self));
        }
        out
    }
}

/// Renders one term in its wire form.
pub fn render_term(t: &Term) -> (r: Vec<u8>)
    ensures
        r@ == term_rep(*t),
{
    match t {
        Term::Integer(v) => render_i64(*v),
        Term::AlphaBeta(p) => p.render(),
    }
}

/// Serializes a finished sequence for the row-export handoff: every term in
/// index order in its exact wire form, space-separated, as one buffer. The
/// sequence is consumed — export is a terminal operation.
pub fn render_sequence(s: Sequence) -> (r: Vec<u8>)
    requires
        s@.len() >= 1,
    ensures
        r@ == sequence_rep(s@),
{
    let mut out = s[0].render();
    proof {
        assert(s@.take(1) =~= seq![s@[0]]);
    }
    let mut i: usize = 1;
    while i < s.len()
        invariant
            1 <= i <= s@.len(),
            out@ == sequence_rep(s@.take(i as int)),
        decreases s@.len() - i,
    {
        out.push(32);
        let mut tail = s[i].render();
        out.append(&mut tail);
        proof {
            assert(s@.take(i as int + 1).drop_last() =~= s@.take(i as int));
            assert(s@.take(i as int + 1).last() == s@[i as int]);
            assert(out@ =~= sequence_rep(s@.take(i as int + 1)));
        }
        i = i + 1;
    }
    proof {
        assert(s@.take(s@.len() as int) =~= s@);
    }
    out
}

} // verus!
