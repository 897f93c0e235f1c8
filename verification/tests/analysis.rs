use bowseq::alpha_beta::AlphaBeta;
use bowseq::analysis::coefficient_sums;
use bowseq::analysis::find_indices;
use bowseq::analysis::int_find_indices;
use bowseq::analysis::int_min_max;
use bowseq::analysis::int_sum;
use bowseq::sequence::int_sequence_generator;
use bowseq::sequence::seed_alphabeta;
use bowseq::sequence::seed_int;
use bowseq::sequence::sequence_generator;

fn pair(alpha: i64, beta: i64) -> AlphaBeta {
    AlphaBeta { alpha, beta }
}

fn canonical_run(row_count: u32) -> Vec<AlphaBeta> {
    sequence_generator(
        row_count,
        seed_alphabeta(pair(1, 0), pair(0, 1)).unwrap(),
    )
}

#[test]
fn integer_sum_over_two_rows() {
    // Seeds (0, 1) over two rows give [0, 1, 0, 1, 1, 1, 0].
    let s = int_sequence_generator(2, seed_int(0, 1));
    assert_eq!(int_sum(&s), 4);
    assert_eq!(s.len(), 7);
}

#[test]
fn coefficient_sums_over_two_rows() {
    // Coefficients over positions 1..=7: alphas 1,0,1,1,0,2,1 and betas
    // 0,1,0,1,1,1,0.
    let s = canonical_run(2);
    assert_eq!(coefficient_sums(&s), (6, 4));
}

#[test]
fn min_max_seeds_from_the_first_element() {
    let s = int_sequence_generator(1, seed_int(-1, 1));
    assert_eq!(s, vec![-1, 1, -1]);
    assert_eq!(int_min_max(&s), (-1, 1));
}

#[test]
fn min_max_of_all_negative_terms() {
    let s = int_sequence_generator(1, seed_int(-5, -3));
    assert_eq!(s, vec![-5, -3, -5]);
    assert_eq!(int_min_max(&s), (-5, -3));
}

#[test]
fn find_indices_lists_every_occurrence_in_order() {
    let s = canonical_run(3);
    assert_eq!(find_indices(&s, pair(1, 0)), vec![0, 2, 6, 14]);
    assert_eq!(find_indices(&s, pair(2, 2)), vec![9, 13]);
}

#[test]
fn find_indices_of_an_absent_value_is_empty() {
    let s = canonical_run(3);
    assert_eq!(find_indices(&s, pair(9, 9)), Vec::<usize>::new());
    let t = int_sequence_generator(2, seed_int(0, 1));
    assert_eq!(int_find_indices(&t, 42), Vec::<usize>::new());
}

#[test]
fn int_find_indices_lists_every_occurrence_in_order() {
    let t = int_sequence_generator(2, seed_int(0, 1));
    assert_eq!(int_find_indices(&t, 0), vec![0, 2, 6]);
    assert_eq!(int_find_indices(&t, 1), vec![1, 3, 4, 5]);
}
