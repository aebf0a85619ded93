use geomage::float_bits::{is_infinite_bits, is_nan_bits, is_zero_bits, lt_bits};

fn check_lt(a: f64, b: f64) {
    assert_eq!(lt_bits(a.to_bits(), b.to_bits()), a < b, "lt mismatch for {a} < {b}");
}

#[test]
fn lt_bits_matches_double_comparison() {
    let values = [
        0.0f64,
        -0.0,
        1.0,
        -1.0,
        1.5,
        -1.5,
        180.0,
        -180.0,
        f64::INFINITY,
        f64::NEG_INFINITY,
        f64::NAN,
        f64::MIN_POSITIVE,
        -f64::MIN_POSITIVE,
        5e-324,
        -5e-324,
        f64::MAX,
        f64::MIN,
        1e300,
        -1e300,
    ];
    for &a in &values {
        for &b in &values {
            check_lt(a, b);
        }
    }
}

#[test]
fn class_tests_match_doubles() {
    let values = [0.0f64, -0.0, 1.0, -1.0, f64::INFINITY, f64::NEG_INFINITY, f64::NAN, 5e-324];
    for &a in &values {
        assert_eq!(is_nan_bits(a.to_bits()), a.is_nan());
        assert_eq!(is_infinite_bits(a.to_bits()), a.is_infinite());
        assert_eq!(is_zero_bits(a.to_bits()), a == 0.0);
    }
}
