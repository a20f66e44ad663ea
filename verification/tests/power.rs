use spectral_norm::dimension::{Dimension, InvalidDimension};
use spectral_norm::matrix::Orientation;
use spectral_norm::multiply::{mult, par_mult};
use spectral_norm::power::{dot, norm_estimate, spectralnorm, ITERATIONS};

fn quotient(top: f64, bottom: usize) -> f64 {
    top / bottom as f64
}

fn sum(a: f64, b: f64) -> f64 {
    a + b
}

fn product(a: f64, b: f64) -> f64 {
    a * b
}

fn root_of_ratio(above: f64, below: f64) -> f64 {
    (above / below).sqrt()
}

fn whole_sum(a: u64, b: u64) -> u64 {
    a + b
}

fn whole_product(a: u64, b: u64) -> u64 {
    a * b
}

fn ordered_sum(a: u64, b: u64) -> u64 {
    a.wrapping_mul(1_000_003).wrapping_add(b)
}

fn estimate(n: usize) -> f64 {
    match spectralnorm(n, 0.0, 1.0, &quotient, &sum, &product, &root_of_ratio) {
        Ok(answer) => answer,
        Err(reason) => panic!("{} was turned down: {:?}", n, reason),
    }
}

fn accepted(n: usize) -> Dimension {
    match Dimension::new(n) {
        Ok(dimension) => dimension,
        Err(reason) => panic!("{} was turned down: {:?}", n, reason),
    }
}

// The same iteration with the workers' share of the work done in turn (`parallel` off) or
// with the matrix in place of its transpose (`transposing` off).
fn estimate_with(n: usize, parallel: bool, transposing: bool) -> f64 {
    let dimension = accepted(n);
    let second = if transposing { Orientation::Transposed } else { Orientation::Direct };
    let multiply = |orientation: Orientation, v: &[f64], out: &mut [f64]| {
        if parallel {
            par_mult(&dimension, orientation, v, out, 0.0, &quotient, &sum);
        } else {
            mult(&dimension, orientation, v, out, 0, 0.0, &quotient, &sum);
        }
    };
    let mut u = vec![1.0; n];
    let mut v = vec![0.0; n];
    let mut tmp = vec![0.0; n];
    for _ in 0..ITERATIONS {
        multiply(Orientation::Direct, &u, &mut tmp);
        multiply(second, &tmp, &mut v);
        multiply(Orientation::Direct, &v, &mut tmp);
        multiply(second, &tmp, &mut u);
    }
    norm_estimate(&u, &v, 0.0, &product, &sum, &root_of_ratio)
}

fn entry(i: usize, j: usize) -> f64 {
    1.0 / ((i + j) * (i + j + 1) / 2 + i + 1) as f64
}

// The textbook computation, with one running total for each slot.
fn plain_estimate(n: usize) -> f64 {
    let times = |v: &[f64]| -> Vec<f64> {
        (0..n).map(|i| (0..n).map(|j| entry(i, j) * v[j]).sum()).collect()
    };
    let times_transposed = |v: &[f64]| -> Vec<f64> {
        (0..n).map(|i| (0..n).map(|j| entry(j, i) * v[j]).sum()).collect()
    };
    let mut u = vec![1.0f64; n];
    let mut v = vec![0.0f64; n];
    for _ in 0..10 {
        v = times_transposed(&times(&u));
        u = times_transposed(&times(&v));
    }
    let above: f64 = u.iter().zip(v.iter()).map(|(a, b)| a * b).sum();
    let below: f64 = v.iter().map(|b| b * b).sum();
    (above / below).sqrt()
}

#[test]
fn iteration_count_is_ten() {
    assert_eq!(ITERATIONS, 10);
}

#[test]
fn dot_adds_the_products_slot_by_slot() {
    assert_eq!(dot(&[1u64, 2, 3], &[4, 5, 6], 0, &whole_product, &whole_sum), 32);
    assert_eq!(dot(&[1u64, 2, 3], &[4, 5, 6], 100, &whole_product, &whole_sum), 132);
}

#[test]
fn dot_of_empty_vectors_is_the_starting_value() {
    let empty: Vec<u64> = vec![];
    assert_eq!(dot(&empty, &empty, 7, &whole_product, &whole_sum), 7);
}

#[test]
fn dot_leaves_surplus_slots_out() {
    assert_eq!(dot(&[1u64, 2, 3, 1000], &[4, 5, 6], 0, &whole_product, &whole_sum), 32);
    assert_eq!(dot(&[1u64, 2], &[4, 5, 6], 0, &whole_product, &whole_sum), 14);
}

#[test]
fn dot_adds_from_the_left() {
    let x = [3u64, 5, 7, 11];
    let y = [2u64, 4, 6, 8];
    let mut expected = 1u64;
    for i in 0..4 {
        expected = ordered_sum(expected, x[i] * y[i]);
    }
    assert_eq!(dot(&x, &y, 1, &whole_product, &ordered_sum), expected);
}

#[test]
fn dot_in_floating_point_is_the_left_fold() {
    let x = [0.1f64, 0.2, 0.3, 1e16, -1e16];
    let y = [1.0f64, 1.0, 1.0, 1.0, 1.0];
    let expected: f64 = ((((0.0 + 0.1) + 0.2) + 0.3) + 1e16) + -1e16;
    let total = dot(&x, &y, 0.0, &product, &sum);
    assert_eq!(total.to_bits(), expected.to_bits());
}

#[test]
fn norm_estimate_divides_u_dot_v_by_v_dot_v() {
    let u = [3.0f64, 4.0];
    let v = [1.0f64, 2.0];
    let estimate = norm_estimate(&u, &v, 0.0, &product, &sum, &root_of_ratio);
    assert_eq!(estimate, (11.0f64 / 5.0).sqrt());
}

#[test]
fn norm_estimate_hands_over_the_two_dot_products_in_order() {
    let u = [3u64, 4];
    let v = [1u64, 2];
    let packed = norm_estimate(&u, &v, 0, &whole_product, &whole_sum, &|above: u64, below: u64| above * 1000 + below);
    assert_eq!(packed, 11 * 1000 + 5);
}

#[test]
fn estimate_for_100() {
    let answer = estimate(100);
    assert!((answer - 1.274219991).abs() < 1e-9);
    assert_eq!(format!("{:.9}", answer), "1.274219991");
}

#[test]
fn estimate_for_1000() {
    let answer = estimate(1000);
    assert!((answer - 1.274224150).abs() < 1e-8);
    assert_eq!(format!("{:.9}", answer), "1.274224148");
}

#[test]
fn estimate_for_2() {
    let answer = estimate(2);
    assert_eq!(answer.to_bits(), 0x3ff2ef0098401544);
    assert_eq!(format!("{:.9}", answer), "1.183350177");
}

#[test]
fn estimate_for_small_lengths() {
    assert_eq!(estimate(4).to_bits(), 0x3ff40a64a775a02d);
    assert_eq!(estimate(6).to_bits(), 0x3ff440a113b4ba89);
    assert_eq!(estimate(100).to_bits(), 0x3ff4633480643705);
}

#[test]
fn estimate_matches_a_plain_summation() {
    for n in [2usize, 4, 10, 50, 100, 200] {
        let answer = estimate(n);
        let plain = plain_estimate(n);
        assert!((answer - plain).abs() < 1e-12, "{}: {} against {}", n, answer, plain);
    }
}

#[test]
fn estimate_is_positive_and_finite() {
    for n in (2..=64usize).step_by(2) {
        let answer = estimate(n);
        assert!(answer.is_finite());
        assert!(answer > 0.0);
    }
}

#[test]
fn estimate_grows_towards_the_norm_of_the_infinite_matrix() {
    let mut last = 0.0;
    for n in [2usize, 4, 8, 16, 32, 64, 128] {
        let answer = estimate(n);
        assert!(answer > last);
        assert!(answer < 1.2742241528);
        last = answer;
    }
}

#[test]
fn repeated_runs_agree_bit_for_bit() {
    for n in [2usize, 10, 100, 250] {
        let first = estimate(n);
        for _ in 0..3 {
            assert_eq!(estimate(n).to_bits(), first.to_bits());
        }
    }
}

#[test]
fn parallel_split_does_not_change_the_result() {
    for n in [2usize, 6, 14, 100, 202] {
        assert_eq!(estimate(n).to_bits(), estimate_with(n, true, true).to_bits());
        assert_eq!(estimate(n).to_bits(), estimate_with(n, false, true).to_bits());
    }
}

#[test]
fn transpose_step_changes_the_result() {
    for n in [2usize, 100] {
        assert_ne!(estimate(n).to_bits(), estimate_with(n, true, false).to_bits());
    }
    assert!((estimate_with(100, true, false) - estimate(100)).abs() > 1e-3);
}

#[test]
fn odd_length_is_no_size_to_estimate_from() {
    for n in [1usize, 3, 101, 99999, usize::MAX] {
        let answer = spectralnorm(n, 0.0, 1.0, &quotient, &sum, &product, &root_of_ratio);
        assert_eq!(answer, Err(InvalidDimension::Odd));
    }
}

#[test]
fn zero_length_is_no_size_to_estimate_from() {
    let answer = spectralnorm(0, 0.0, 1.0, &quotient, &sum, &product, &root_of_ratio);
    assert_eq!(answer, Err(InvalidDimension::Zero));
}

#[test]
fn too_large_length_is_no_size_to_estimate_from() {
    let answer = spectralnorm(usize::MAX - 1, 0.0, 1.0, &quotient, &sum, &product, &root_of_ratio);
    assert_eq!(answer, Err(InvalidDimension::TooLarge));
}

// Arithmetic on the whole numbers below a prime, so that no step forgets what it was given.
const PRIME: u64 = 1_000_000_007;

fn tagged_sum(a: u64, b: u64) -> u64 {
    (a % PRIME * 1_000_003 + b % PRIME) % PRIME
}

fn tagged_quotient(top: u64, bottom: usize) -> u64 {
    (top % PRIME * 31 + bottom as u64 % PRIME) % PRIME
}

fn tagged_product(a: u64, b: u64) -> u64 {
    (a % PRIME * 7 + b % PRIME * (b % PRIME)) % PRIME
}

fn packed(above: u64, below: u64) -> u64 {
    above % PRIME * PRIME + below % PRIME
}

fn denominator(i: usize, j: usize) -> usize {
    (i + j) * (i + j + 1) / 2 + i + 1
}

// The whole run written out once more, with arithmetic on whole numbers that tells apart any
// two orders of the operations.
fn tagged_run(n: usize, zero: u64, one: u64, rounds: usize) -> u64 {
    let times = |v: &[u64], transposed: bool| -> Vec<u64> {
        (0..n)
            .map(|row| {
                let mut lanes = [zero, zero];
                for column in 0..n {
                    let bottom = if transposed { denominator(column, row) } else { denominator(row, column) };
                    lanes[column % 2] = tagged_sum(lanes[column % 2], tagged_quotient(v[column], bottom));
                }
                tagged_sum(lanes[0], lanes[1])
            })
            .collect()
    };
    let dot = |x: &[u64], y: &[u64]| -> u64 {
        x.iter().zip(y.iter()).fold(zero, |total, (a, b)| tagged_sum(total, tagged_product(*a, *b)))
    };
    let mut u = vec![one; n];
    let mut v = vec![zero; n];
    for _ in 0..rounds {
        v = times(&times(&u, false), true);
        u = times(&times(&v, false), true);
    }
    packed(dot(&u, &v), dot(&v, &v))
}

fn tagged_estimate(n: usize, zero: u64, one: u64) -> u64 {
    match spectralnorm(n, zero, one, &tagged_quotient, &tagged_sum, &tagged_product, &packed) {
        Ok(answer) => answer,
        Err(reason) => panic!("{} was turned down: {:?}", n, reason),
    }
}

#[test]
fn run_makes_each_operation_in_its_place() {
    for n in [2usize, 4, 6, 10, 30] {
        assert_eq!(tagged_estimate(n, 0, 1), tagged_run(n, 0, 1, 10));
        assert_eq!(tagged_estimate(n, 5, 11), tagged_run(n, 5, 11, 10));
    }
}

#[test]
fn run_has_exactly_ten_rounds() {
    assert_ne!(tagged_estimate(6, 0, 1), tagged_run(6, 0, 1, 9));
    assert_ne!(tagged_estimate(6, 0, 1), tagged_run(6, 0, 1, 11));
}

#[test]
fn run_starts_from_the_given_vectors() {
    assert_ne!(tagged_estimate(4, 0, 1), tagged_estimate(4, 0, 2));
    assert_ne!(tagged_estimate(4, 0, 1), tagged_estimate(4, 3, 1));
}

#[test]
fn run_with_whole_numbers_repeats_itself() {
    for _ in 0..5 {
        assert_eq!(tagged_estimate(50, 0, 1), tagged_run(50, 0, 1, 10));
    }
}
