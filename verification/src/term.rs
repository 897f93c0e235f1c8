use vstd::prelude::*;
use crate::alpha_beta::AlphaBeta;
use crate::errors::BowError;

verus! {

/// The numeric domains a sequence can be built over. `Float` exists as a tag
/// so the casting rules can speak about it; floating-point values themselves
/// are inexact and live outside the verified core.
#[derive(Clone, Copy, Debug, PartialEq, Eq, Structural)]
pub enum Domain {
    Integer,
    Float,
    AlphaBeta,
}

/// One term of a sequence, tagged by its domain. The union is closed over
/// the exactly-representable domains; the unverified shell around this core
/// carries floating-point terms in a widened copy of its own.
#[derive(Clone, Copy, Debug, PartialEq, Eq, Structural)]
pub enum Term {
    Integer(i64),
    AlphaBeta(AlphaBeta),
}

/// The domain tag of a term.
pub open spec fn spec_term_domain(t: Term) -> Domain {
    match t {
        Term::Integer(_) => Domain::Integer,
        Term::AlphaBeta(_) => Domain::AlphaBeta,
    }
}

/// Reads the domain tag off a term.
pub fn term_domain(t: &Term) -> (r: Domain)
    ensures
        r == spec_term_domain(*t),
{
    match t {
        Term::Integer(_) => Domain::Integer,
        Term::AlphaBeta(_) => Domain::AlphaBeta,
    }
}

/// Addition over terms: defined only within one domain, numeric for
/// integers, component-wise for coefficient pairs. A tag mismatch is a
/// configuration error and surfaces immediately; it is never coerced away.
/// The numeric precondition is what machine arithmetic forces on the
/// non-error path.
pub fn term_add(a: Term, b: Term) -> (r: Result<Term, BowError>)
    requires
        match (a, b) {
            (Term::Integer(x), Term::Integer(y)) => i64::MIN <= x + y <= i64::MAX,
            (Term::AlphaBeta(x), Term::AlphaBeta(y)) => i64::MIN <= x.alpha + y.alpha <= i64::MAX
                && i64::MIN <= x.beta + y.beta <= i64::MAX,
            _ => true,
        },
    ensures
        match (a, b) {
            (Term::Integer(x), Term::Integer(y)) => r matches Ok(t) && t matches Term::Integer(v)
                && v == x + y,
            (Term::AlphaBeta(x), Term::AlphaBeta(y)) => r matches Ok(t) && t matches Term::AlphaBeta(
                p,
            ) && p.alpha == x.alpha + y.alpha && p.beta == x.beta + y.beta,
            _ => r == Err::<Term, BowError>(BowError::TagMismatch),
        },
{
    match (a, b) {
        (Term::Integer(x), Term::Integer(y)) => Ok(Term::Integer(x + y)),
        (Term::AlphaBeta(x), Term::AlphaBeta(y)) => Ok(Term::AlphaBeta(x.add(y))),
        _ => Err(BowError::TagMismatch),
    }
}

/// Whether a cast between domains has a defined meaning: widening an integer
/// to a float always does, and a coefficient pair evaluates to a float once
/// the caller supplies its two real weights. Every other direction is
/// meaningless and must not be attempted.
pub open spec fn spec_cast_allowed(from: Domain, to: Domain) -> bool {
    (from == Domain::Integer && to == Domain::Float) || (from == Domain::AlphaBeta && to
        == Domain::Float)
}

/// The casting rule as an executable decision.
pub fn cast_allowed(from: Domain, to: Domain) -> (r: bool)
    ensures
        r == spec_cast_allowed(from, to),
{
    match (from, to) {
        (Domain::Integer, Domain::Float) => true,
        (Domain::AlphaBeta, Domain::Float) => true,
        _ => false,
    }
}

/// Validates a cast request at the domain boundary: a direction without a
/// defined meaning fails with `UnrepresentableCast`, exactly when the rule
/// says so.
pub fn check_cast(from: Domain, to: Domain) -> (r: Result<(), BowError>)
    ensures
        spec_cast_allowed(from, to) ==> r == Ok::<(), BowError>(()),
        !spec_cast_allowed(from, to) ==> r == Err::<(), BowError>(BowError::UnrepresentableCast),
{
    if cast_allowed(from, to) {
        Ok(())
    } else {
        Err(BowError::UnrepresentableCast)
    }
}

} // verus!
