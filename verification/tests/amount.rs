use monzo_cli::format_amount;

#[test]
fn zero_renders_with_single_zero_minor() {
    assert_eq!(format_amount(0), "0.0");
}

#[test]
fn minor_part_is_not_zero_padded() {
    assert_eq!(format_amount(105), "1.5");
    assert_eq!(format_amount(100), "1.0");
}

#[test]
fn negative_amount_keeps_sign_on_major() {
    assert_eq!(format_amount(-150), "-1.50");
}

#[test]
fn small_amounts_lose_sign_when_major_is_zero() {
    assert_eq!(format_amount(5), "0.5");
    assert_eq!(format_amount(-5), "0.5");
}

#[test]
fn large_amounts_render_every_digit() {
    assert_eq!(format_amount(10050), "100.50");
    assert_eq!(format_amount(123456789), "1234567.89");
    assert_eq!(format_amount(-123456789), "-1234567.89");
}

#[test]
fn extreme_values_do_not_panic() {
    assert_eq!(format_amount(i64::MAX), "92233720368547758.7");
    assert_eq!(format_amount(i64::MIN), "-92233720368547758.8");
}
