use lessons::basics::{
    arithmetic_results, classify_temperature, counts_before, evens_between, passes_until_break,
    quotient_trunc, range_inclusive, remainder_trunc, Weather,
};

#[test]
fn arithmetic_on_ten_and_three() {
    assert_eq!(arithmetic_results(10, 3), (13, 7, 30, 3, 1));
}

#[test]
fn quotient_truncates_toward_zero() {
    assert_eq!(quotient_trunc(-7, 2), -3);
    assert_eq!(quotient_trunc(7, -2), -3);
    assert_eq!(quotient_trunc(-7, -2), 3);
    assert_eq!(quotient_trunc(7, 2), 3);
}

#[test]
fn remainder_takes_dividend_sign() {
    assert_eq!(remainder_trunc(-7, 2), -1);
    assert_eq!(remainder_trunc(7, -2), 1);
    assert_eq!(remainder_trunc(-7, -2), -1);
    assert_eq!(remainder_trunc(7, 2), 1);
}

#[test]
fn division_at_extreme_values() {
    assert_eq!(quotient_trunc(i32::MIN, 2), -1073741824);
    assert_eq!(quotient_trunc(i32::MIN, i32::MIN), 1);
    assert_eq!(quotient_trunc(5, i32::MIN), 0);
    assert_eq!(remainder_trunc(5, i32::MIN), 5);
    assert_eq!(remainder_trunc(i32::MIN, i32::MIN), 0);
    assert_eq!(quotient_trunc(i32::MIN, 1), i32::MIN);
    assert_eq!(remainder_trunc(i32::MIN, 1), 0);
}

#[test]
fn forty_degrees_is_hot() {
    assert_eq!(classify_temperature(40), Weather::Hot);
}

#[test]
fn classification_at_thresholds() {
    assert_eq!(classify_temperature(31), Weather::Hot);
    assert_eq!(classify_temperature(30), Weather::Nice);
    assert_eq!(classify_temperature(15), Weather::Nice);
    assert_eq!(classify_temperature(14), Weather::Cold);
}

#[test]
fn while_loop_counts_to_five() {
    assert_eq!(counts_before(5), vec![0, 1, 2, 3, 4]);
}

#[test]
fn counts_before_zero_is_empty() {
    assert_eq!(counts_before(0), Vec::<u32>::new());
}

#[test]
fn loop_breaks_after_two_passes() {
    assert_eq!(passes_until_break(2), 2);
}

#[test]
fn inclusive_range_one_to_six() {
    assert_eq!(range_inclusive(1, 6), vec![1, 2, 3, 4, 5, 6]);
}

#[test]
fn inclusive_range_empty_when_reversed() {
    assert_eq!(range_inclusive(6, 1), Vec::<i32>::new());
}

#[test]
fn even_values_below_ten() {
    assert_eq!(evens_between(1, 10), vec![2, 4, 6, 8]);
}

#[test]
fn even_values_of_negative_range() {
    assert_eq!(evens_between(-4, 1), vec![-4, -2, 0]);
}
