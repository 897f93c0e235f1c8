use bowseq::alpha_beta::AlphaBeta;
use bowseq::render::render_i64;
use bowseq::render::render_sequence;
use bowseq::render::render_term;
use bowseq::sequence::seed_alphabeta;
use bowseq::sequence::sequence_generator;
use bowseq::term::Term;

fn pair(alpha: i64, beta: i64) -> AlphaBeta {
    AlphaBeta { alpha, beta }
}

#[test]
fn decimal_rendering_is_exact() {
    assert_eq!(render_i64(0), b"0".to_vec());
    assert_eq!(render_i64(7), b"7".to_vec());
    assert_eq!(render_i64(-12), b"-12".to_vec());
    assert_eq!(render_i64(1048575), b"1048575".to_vec());
    assert_eq!(render_i64(i64::MAX), b"9223372036854775807".to_vec());
    assert_eq!(render_i64(i64::MIN), b"-9223372036854775808".to_vec());
}

#[test]
fn alpha_beta_wire_form_is_exact() {
    assert_eq!(pair(1, 0).render(), b"1a+0b".to_vec());
    assert_eq!(pair(12, 34).render(), b"12a+34b".to_vec());
    assert_eq!(pair(-1, 2).render(), b"-1a+2b".to_vec());
}

#[test]
fn term_wire_form_is_exact() {
    assert_eq!(render_term(&Term::Integer(-7)), b"-7".to_vec());
    assert_eq!(render_term(&Term::AlphaBeta(pair(2, 1))), b"2a+1b".to_vec());
}

#[test]
fn sequence_export_is_space_separated_in_index_order() {
    let s = sequence_generator(
        1,
        seed_alphabeta(pair(1, 0), pair(0, 1)).unwrap(),
    );
    assert_eq!(render_sequence(s), b"1a+0b 0a+1b 1a+0b".to_vec());
}

#[test]
fn sequence_export_of_a_single_term() {
    let s = sequence_generator(
        0,
        seed_alphabeta(pair(1, 0), pair(0, 1)).unwrap(),
    );
    assert_eq!(render_sequence(s), b"1a+0b".to_vec());
}
