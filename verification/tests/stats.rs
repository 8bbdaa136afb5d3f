use statistic::count;
use statistic::max;
use statistic::median;
use statistic::min;

#[test]
fn count_empty_is_zero() {
    let v: Vec<i64> = Vec::new();
    assert_eq!(count(&v), 0);
}

#[test]
fn count_three() {
    assert_eq!(count(&[10i64, 20, 30]), 3);
}

#[test]
fn min_max_empty_absent() {
    let v: Vec<i64> = Vec::new();
    assert_eq!(min(&v), None);
    assert_eq!(max(&v), None);
}

#[test]
fn min_of_three() {
    assert_eq!(min(&[3i64, 1, 2]), Some(1));
}

#[test]
fn max_of_three() {
    assert_eq!(max(&[3i64, 1, 2]), Some(3));
}

#[test]
fn min_max_other_integer_widths() {
    assert_eq!(min(&[3u8, 1, 2]), Some(1));
    assert_eq!(max(&[-1i32, 7, 0]), Some(7));
}

#[test]
fn min_max_on_floats() {
    assert_eq!(min(&[3.0f64, 1.0, 2.0]), Some(1.0));
    assert_eq!(max(&[3.0f64, 1.0, 2.0]), Some(3.0));
}

#[test]
fn min_ignores_uncomparable_after_candidate() {
    let v = [1.0f64, f64::NAN, 0.5];
    assert_eq!(min(&v), Some(0.5));
    let w = [1.0f64, f64::NAN, 2.0];
    assert_eq!(min(&w), Some(1.0));
}

#[test]
fn min_keeps_uncomparable_first_candidate() {
    let v = [f64::NAN, 2.0f64];
    assert!(min(&v).unwrap().is_nan());
}

#[test]
fn min_tie_keeps_first_encountered() {
    let v = [0.0f64, -0.0f64];
    assert_eq!(min(&v).unwrap().to_bits(), 0.0f64.to_bits());
}

#[test]
fn median_empty_absent() {
    let mut v: Vec<i64> = Vec::new();
    assert_eq!(median(&mut v), None);
}

#[test]
fn median_single() {
    let mut v = vec![5i64];
    assert_eq!(median(&mut v), Some(5));
}

#[test]
fn median_odd_takes_middle() {
    let mut v = vec![1i64, 3, 2];
    assert_eq!(median(&mut v), Some(2));
}

#[test]
fn median_even_integer_truncates() {
    let mut v = vec![1i64, 2, 3, 4];
    assert_eq!(median(&mut v), Some(2));
}

#[test]
fn median_negative_truncates_toward_zero() {
    let mut v = vec![-3i64, -2];
    assert_eq!(median(&mut v), Some(-2));
}

#[test]
fn median_extreme_values_no_overflow() {
    let mut v = vec![i64::MAX, i64::MAX];
    assert_eq!(median(&mut v), Some(i64::MAX));
    let mut w = vec![i64::MIN, i64::MIN];
    assert_eq!(median(&mut w), Some(i64::MIN));
    let mut x = vec![i64::MIN, i64::MAX];
    assert_eq!(median(&mut x), Some(0));
}

#[test]
fn median_with_equal_elements() {
    let mut v = vec![2i64, 2, 2, 2];
    assert_eq!(median(&mut v), Some(2));
}

#[test]
fn median_leaves_sequence_sorted() {
    let mut v = vec![3i64, 1, 2, 5, 4];
    median(&mut v);
    assert_eq!(v, vec![1i64, 2, 3, 4, 5]);
}

#[test]
fn scans_are_idempotent() {
    let v = [3i64, 1, 2];
    assert_eq!(min(&v), min(&v));
    assert_eq!(max(&v), max(&v));
    assert_eq!(count(&v), count(&v));
}

#[test]
fn min_at_most_max() {
    let v = [4i64, -7, 9, 0];
    assert!(min(&v).unwrap() <= max(&v).unwrap());
}
