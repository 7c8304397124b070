use codex_usage_tray::double::Double;

fn double(x: f64) -> Double {
    Double { bits: x.to_bits() }
}

fn samples() -> Vec<f64> {
    let mut all = vec![
        0.0,
        -0.0,
        f64::NAN,
        f64::INFINITY,
        f64::NEG_INFINITY,
        f64::MIN_POSITIVE,
        -f64::MIN_POSITIVE,
        5e-324,
        -5e-324,
        f64::MAX,
        f64::MIN,
        0.1,
        0.49999999999999994,
        0.5,
        -0.5,
        0.75,
        1.0,
        -1.0,
        1.0000000000000002,
        -1.0000000000000002,
        0.9999999999999999,
        1e15,
        9007199254740993.0,
        9.223372036854775e18,
        9.223372036854776e18,
        -9.223372036854776e18,
        -9.223372036854778e18,
        1e19,
        1e300,
        -1e300,
    ];
    let mut x = -110.0;
    while x <= 210.0 {
        all.push(x);
        all.push(x + 0.3);
        all.push(f64::from_bits(x.to_bits() + 1));
        all.push(f64::from_bits(x.to_bits().wrapping_sub(1)));
        x += 2.5;
    }
    all
}

#[test]
fn comparisons_agree_with_floating_point() {
    for x in samples() {
        for n in [0u32, 1, 5, 10, 15, 59, 60, 80, 84, 85, 95, 100, 1000, 4294967295] {
            let bound = n as f64;
            assert_eq!(double(x).at_least(n), x >= bound, "{x} >= {n}");
            assert_eq!(double(x).above(n), x > bound, "{x} > {n}");
            assert_eq!(double(x).below_minus(n), x < -bound, "{x} < -{n}");
        }
        assert_eq!(double(x).within_half(), x.abs() < 0.5, "|{x}| < 0.5");
    }
}

#[test]
fn truncation_agrees_with_floating_point() {
    for x in samples() {
        assert_eq!(double(x).truncate(), x as i64, "{x}");
    }
}

#[test]
fn zero_is_zero() {
    assert_eq!(f64::from_bits(Double::zero().bits).to_bits(), 0.0f64.to_bits());
}
