use crossfury::decimal::{dec_checked_add, dec_checked_div, dec_compare, dec_fixed_text, dec_text, Dec};

#[test]
fn test_decimal_text() {
    assert_eq!(dec_text(Dec::new(31415, 4)), "3.1415");
    assert_eq!(dec_text(Dec::new(-5, 3)), "-0.005");
    assert_eq!(dec_text(Dec::new(0, 0)), "0");
    assert_eq!(dec_text(Dec::new(0, 2)), "0.00");
    assert_eq!(dec_text(Dec::new(1200, 0)), "1200");
}

#[test]
fn test_decimal_compare() {
    assert_eq!(dec_compare(Dec::new(10, 1), Dec::new(100, 2)), 0);
    assert!(dec_compare(Dec::new(-1, 0), Dec::new(1, 28)) < 0);
    assert!(dec_compare(Dec::new(5, 0), Dec::new(49999, 4)) > 0);
}

#[test]
fn test_decimal_arithmetic_through_rust_decimal() {
    let s = dec_checked_add(Dec::new(15, 1), Dec::new(25, 2)).unwrap();
    assert_eq!(dec_text(s), "1.75");
    assert!(dec_checked_div(Dec::new(1, 0), Dec::new(0, 0)).is_none());
    let q = dec_checked_div(Dec::new(1, 0), Dec::new(4, 0)).unwrap();
    assert_eq!(dec_text(q), "0.25");
    assert_eq!(dec_fixed_text(Dec::new(123456, 5), 2), "1.23");
}
