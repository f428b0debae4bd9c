// The numeric fast path folds native floating-point numbers with native
// addition and an identity element of 0.0 on empty input. The engine is
// generic; these tests instantiate it exactly as the host boundary does.

use rpy::engine::reduce_with_identity;

#[test]
fn numeric_sum_empty_is_exactly_zero() {
    let f = |a: f64, b: f64| -> f64 { a + b };
    let r = reduce_with_identity(0.0, f, Vec::new());
    assert_eq!(r, 0.0);
}

#[test]
fn numeric_sum_of_one_two_three_is_six() {
    let f = |a: f64, b: f64| -> f64 { a + b };
    let r = reduce_with_identity(0.0, f, vec![1.0, 2.0, 3.0]);
    assert_eq!(r, 6.0);
}

#[test]
fn numeric_sum_matches_sequential_left_to_right_order() {
    let f = |a: f64, b: f64| -> f64 { a + b };
    // (1e16 + 1.0) rounds back to 1e16, so the left-to-right sum is exactly
    // 0.0; any reordering (e.g. 1e16 + (1.0 - 1e16)) would give 1.0 instead.
    let r = reduce_with_identity(0.0, f, vec![1.0e16, 1.0, -1.0e16]);
    assert_eq!(r, 0.0);
    let expected = ((0.1f64 + 0.2f64) + 0.3f64) + 0.4f64;
    let r2 = reduce_with_identity(0.0, f, vec![0.1, 0.2, 0.3, 0.4]);
    assert_eq!(r2, expected);
}
