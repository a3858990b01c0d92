use lessons::option_result::{
    add_five_opt, chain_half, divide, double_checked, double_opt, find_first_even, half_if_even,
    parse_and_double, parse_i32, process_number, NumError,
};

#[test]
fn first_even_is_found() {
    let nums = [1, 3, 5, 6, 7];
    assert_eq!(find_first_even(&nums), Some(6));
}

#[test]
fn no_even_means_absent() {
    let nums = [1, 3, 5, 7, 9];
    assert_eq!(find_first_even(&nums), None);
}

#[test]
fn half_of_even_is_present() {
    assert_eq!(half_if_even(10), Some(5));
}

#[test]
fn half_of_odd_is_absent() {
    assert_eq!(half_if_even(11), None);
}

#[test]
fn map_over_present_transforms() {
    assert_eq!(double_opt(Some(5)), Some(10));
}

#[test]
fn map_over_absent_stays_absent() {
    assert_eq!(double_opt(None), None);
    assert_eq!(add_five_opt(None), None);
}

#[test]
fn chained_maps_compose() {
    assert_eq!(add_five_opt(double_opt(Some(10))), Some(25));
}

#[test]
fn chain_short_circuits_on_first_absence() {
    assert_eq!(chain_half(Some(10)), Some(5));
    assert_eq!(chain_half(Some(11)), None);
    assert_eq!(chain_half(None), None);
    assert_eq!(chain_half(chain_half(Some(11))), None);
}

#[test]
fn division_succeeds_off_zero() {
    assert_eq!(divide(10, 2), Ok(5));
}

#[test]
fn division_by_zero_fails_with_message() {
    assert_eq!(divide(10, 0), Err(String::from("Cannot divide by zero")));
}

#[test]
fn parse_reads_plain_numbers() {
    assert_eq!(parse_i32("5"), Ok(5));
    assert_eq!(parse_i32("-3"), Ok(-3));
    assert_eq!(parse_i32("0"), Ok(0));
    assert_eq!(parse_i32("2147483647"), Ok(i32::MAX));
    assert_eq!(parse_i32("-2147483648"), Ok(i32::MIN));
}

#[test]
fn parse_rejects_malformed_text() {
    assert_eq!(parse_i32("abc"), Err(NumError::Invalid));
    assert_eq!(parse_i32(""), Err(NumError::Invalid));
    assert_eq!(parse_i32("-"), Err(NumError::Invalid));
    assert_eq!(parse_i32("12a"), Err(NumError::Invalid));
    assert_eq!(parse_i32("2147483648"), Err(NumError::Invalid));
    assert_eq!(parse_i32("-2147483649"), Err(NumError::Invalid));
    assert_eq!(parse_i32("99999999999999999999"), Err(NumError::Invalid));
}

#[test]
fn processing_scales_by_ten() {
    assert_eq!(process_number("5"), Ok(50));
}

#[test]
fn processing_propagates_each_failure() {
    assert_eq!(process_number("-3"), Err(NumError::Negative));
    assert_eq!(process_number("abc"), Err(NumError::Invalid));
    assert_eq!(process_number("300000000"), Err(NumError::Overflow));
}

#[test]
fn parse_and_double_works_and_fails() {
    assert_eq!(parse_and_double("5"), Ok(10));
    assert_eq!(parse_and_double("abc"), Err(NumError::Invalid));
    assert_eq!(parse_and_double("2000000000"), Err(NumError::Overflow));
}

#[test]
fn checked_double() {
    assert_eq!(double_checked(8), Ok(16));
    assert_eq!(double_checked(2000000000), Err(NumError::Overflow));
    assert_eq!(double_checked(-2000000000), Err(NumError::Overflow));
}
