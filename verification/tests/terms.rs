use bowseq::alpha_beta::AlphaBeta;
use bowseq::errors::BowError;
use bowseq::term::Domain;
use bowseq::term::Term;
use bowseq::term::cast_allowed;
use bowseq::term::check_cast;
use bowseq::term::term_add;
use bowseq::term::term_domain;

fn pair(alpha: i64, beta: i64) -> AlphaBeta {
    AlphaBeta { alpha, beta }
}

#[test]
fn addition_within_one_domain() {
    assert_eq!(
        term_add(Term::Integer(2), Term::Integer(40)).unwrap(),
        Term::Integer(42)
    );
    assert_eq!(
        term_add(Term::AlphaBeta(pair(1, 0)), Term::AlphaBeta(pair(0, 1))).unwrap(),
        Term::AlphaBeta(pair(1, 1))
    );
}

#[test]
fn addition_across_domains_is_a_tag_mismatch() {
    assert_eq!(
        term_add(Term::Integer(1), Term::AlphaBeta(pair(0, 1))).unwrap_err(),
        BowError::TagMismatch
    );
    assert_eq!(
        term_add(Term::AlphaBeta(pair(1, 0)), Term::Integer(1)).unwrap_err(),
        BowError::TagMismatch
    );
}

#[test]
fn domain_tags() {
    assert_eq!(term_domain(&Term::Integer(3)), Domain::Integer);
    assert_eq!(term_domain(&Term::AlphaBeta(pair(1, 0))), Domain::AlphaBeta);
}

#[test]
fn casting_rules() {
    assert!(cast_allowed(Domain::Integer, Domain::Float));
    assert!(cast_allowed(Domain::AlphaBeta, Domain::Float));
    assert!(!cast_allowed(Domain::Float, Domain::AlphaBeta));
    assert!(!cast_allowed(Domain::AlphaBeta, Domain::Integer));
    assert!(!cast_allowed(Domain::Integer, Domain::Integer));
    assert_eq!(check_cast(Domain::Integer, Domain::Float), Ok(()));
    assert_eq!(
        check_cast(Domain::Float, Domain::AlphaBeta).unwrap_err(),
        BowError::UnrepresentableCast
    );
    assert_eq!(
        check_cast(Domain::AlphaBeta, Domain::Integer).unwrap_err(),
        BowError::UnrepresentableCast
    );
}
