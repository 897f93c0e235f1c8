use bowseq::alpha_beta::AlphaBeta;
use bowseq::errors::BowError;
use bowseq::sequence::int_sequence_generator;
use bowseq::sequence::seed_alphabeta;
use bowseq::sequence::seed_int;
use bowseq::sequence::sequence_generator;
use bowseq::sequence::term_at;
use bowseq::sequence::try_generate;
use bowseq::sequence::try_generate_int;

fn canonical() -> Vec<AlphaBeta> {
    seed_alphabeta(
        AlphaBeta { alpha: 1, beta: 0 },
        AlphaBeta { alpha: 0, beta: 1 },
    )
    .unwrap()
}

fn pair(alpha: i64, beta: i64) -> AlphaBeta {
    AlphaBeta { alpha, beta }
}

#[test]
fn generated_length_is_exponential() {
    for row_count in 1..=10u32 {
        let s = sequence_generator(row_count, canonical());
        assert_eq!(s.len() as u64, (1u64 << (row_count + 1)) - 1);
    }
}

#[test]
fn row_count_zero_keeps_only_first_seed() {
    let s = sequence_generator(0, canonical());
    assert_eq!(s.len(), 1);
    assert_eq!(s[0], pair(1, 0));
}

#[test]
fn every_term_satisfies_recurrence() {
    let s = sequence_generator(4, canonical());
    assert_eq!(s.len(), 31);
    for n in 3..=s.len() {
        let expected = if n % 2 == 0 {
            let a = s[n / 2 - 1];
            let b = s[n / 2];
            pair(a.alpha + b.alpha, a.beta + b.beta)
        } else {
            s[(n - 1) / 2 - 1]
        };
        assert_eq!(s[n - 1], expected);
    }
}

#[test]
fn classical_construction_for_three_rows() {
    let s = sequence_generator(3, canonical());
    let expected = vec![
        pair(1, 0),
        pair(0, 1),
        pair(1, 0),
        pair(1, 1),
        pair(0, 1),
        pair(2, 1),
        pair(1, 0),
        pair(1, 2),
        pair(1, 1),
        pair(2, 2),
        pair(0, 1),
        pair(3, 1),
        pair(2, 1),
        pair(2, 2),
        pair(1, 0),
    ];
    assert_eq!(s, expected);
    // Position 4 is the sum of positions 2 and 3.
    assert_eq!(s[3].alpha, s[1].alpha + s[2].alpha);
    assert_eq!(s[3].beta, s[1].beta + s[2].beta);
}

#[test]
fn generation_is_deterministic() {
    let a = sequence_generator(3, canonical());
    let b = sequence_generator(3, canonical());
    assert_eq!(a, b);
    let c = int_sequence_generator(3, seed_int(7, -2));
    let d = int_sequence_generator(3, seed_int(7, -2));
    assert_eq!(c, d);
}

#[test]
fn integer_generation_matches_recurrence() {
    let s = int_sequence_generator(2, seed_int(0, 1));
    assert_eq!(s, vec![0, 1, 0, 1, 1, 1, 0]);
}

#[test]
fn capacity_is_checked_before_allocation() {
    let r = try_generate(40, canonical());
    assert_eq!(
        r.unwrap_err(),
        BowError::CapacityExceeded { length: (1u64 << 41) - 1 }
    );
    let r = try_generate_int(63, seed_int(1, 2));
    assert_eq!(r.unwrap_err(), BowError::CapacityExceeded { length: u64::MAX });
    let ok = try_generate(3, canonical()).unwrap();
    assert_eq!(ok.len(), 15);
    let ok = try_generate_int(0, seed_int(5, 6)).unwrap();
    assert_eq!(ok, vec![5]);
}

#[test]
fn alphabeta_seeds_must_be_canonical() {
    assert_eq!(
        seed_alphabeta(pair(2, 0), pair(0, 1)).unwrap_err(),
        BowError::NonCanonicalSeeds
    );
    assert_eq!(
        seed_alphabeta(pair(0, 1), pair(1, 0)).unwrap_err(),
        BowError::NonCanonicalSeeds
    );
    let s = canonical();
    assert_eq!(s, vec![pair(1, 0), pair(0, 1)]);
}

#[test]
fn term_at_checks_the_boundary() {
    let s = sequence_generator(1, canonical());
    assert_eq!(term_at(&s, 0).unwrap_err(), BowError::IndexOutOfRange);
    assert_eq!(term_at(&s, 4).unwrap_err(), BowError::IndexOutOfRange);
    assert_eq!(term_at(&s, 1).unwrap(), pair(1, 0));
    assert_eq!(term_at(&s, 3).unwrap(), pair(1, 0));
}
