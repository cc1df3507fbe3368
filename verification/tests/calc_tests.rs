use extract_lector::calc::new_calc;

#[test]
fn calc_starts_at_zero() {
    let c = new_calc();
    assert_eq!(c.sum(), 0);
}

#[test]
fn calc_sums_its_two_arguments() {
    let mut c = new_calc();
    assert!(c.set_first_argument(5));
    assert!(c.set_second_argument(4));
    assert_eq!(c.sum(), 9);
}

#[test]
fn calc_sums_up_to_the_type_limit() {
    let mut c = new_calc();
    c.set_first_argument(u32::MAX - 5);
    c.set_second_argument(5);
    assert_eq!(c.sum(), u32::MAX);
}

#[test]
fn calc_setters_replace_previous_values() {
    let mut c = new_calc();
    c.set_first_argument(100);
    c.set_first_argument(7);
    c.set_second_argument(30);
    assert_eq!(c.sum(), 37);
}
