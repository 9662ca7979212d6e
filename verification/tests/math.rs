use precise_number::precise::{
    almost_equal, checked_u8_mul, checked_u8_power, PreciseNumber, ONE,
};
use primitive_types::U256;

fn one() -> U256 {
    U256::from(ONE)
}

fn check_pow_approximation(base: U256, exponent: U256, expected: U256) {
    let precision = U256::from(5_000_000); // correct to at least 3 decimal places
    let base = PreciseNumber { value: base };
    let exponent = PreciseNumber { value: exponent };
    let root = base
        .checked_pow_approximation(&exponent, PreciseNumber::MAX_APPROXIMATION_ITERATIONS)
        .unwrap();
    let expected = PreciseNumber { value: expected };
    assert!(root.almost_eq(&expected, precision));
}

#[test]
fn test_root_approximation() {
    let one = one();
    // square root
    check_pow_approximation(one / 4, one / 2, one / 2); // 1/2
    check_pow_approximation(one * 11 / 10, one / 2, U256::from(1_0488088481u128)); // 1.0488088481

    // 5th root
    check_pow_approximation(one * 4 / 5, one * 2 / 5, U256::from(9146101038u128)); // 0.9146101038

    // 10th root
    check_pow_approximation(one / 2, one * 4 / 50, U256::from(9460576467u128));
    // 0.9460576467
}

fn check_pow_fraction(base: U256, exponent: U256, expected: U256, precision: U256) {
    let base = PreciseNumber { value: base };
    let exponent = PreciseNumber { value: exponent };
    let power = base.checked_pow_fraction(&exponent).unwrap();
    let expected = PreciseNumber { value: expected };
    assert!(power.almost_eq(&expected, precision));
}

#[test]
fn test_pow_fraction() {
    let one = one();
    let precision = U256::from(5_000_000); // correct to at least 3 decimal places
    let less_precision = precision * 100; // correct to at least 1 decimal place
    check_pow_fraction(one, one, one, precision);
    check_pow_fraction(
        one * 20 / 13,
        one * 50 / 3,
        U256::from(1312_5344847391u128),
        precision,
    ); // 1312.5344847391
    check_pow_fraction(one * 2 / 7, one * 49 / 4, U256::from(2163), precision);
    check_pow_fraction(
        one * 5000 / 5100,
        one / 9,
        U256::from(9978021269u128),
        precision,
    ); // 0.99780212695
       // results get less accurate as the base gets further from 1, so allow
       // for a greater margin of error
    check_pow_fraction(
        one * 2,
        one * 27 / 5,
        U256::from(42_2242531447u128),
        less_precision,
    ); // 42.2242531447
    check_pow_fraction(
        one * 18 / 10,
        one * 11 / 3,
        U256::from(8_6297692905u128),
        less_precision,
    ); // 8.629769290
}

#[test]
fn test_newtonian_approximation() {
    // square root
    let test = PreciseNumber::new(9).unwrap();
    let nth_root = PreciseNumber::new(2).unwrap();
    let guess = test.checked_div(&nth_root).unwrap();
    let root = test
        .newtonian_root_approximation(&nth_root, guess)
        .unwrap()
        .to_imprecise()
        .unwrap();
    assert_eq!(root, 3); // actually 3

    let test = PreciseNumber::new(101).unwrap();
    let nth_root = PreciseNumber::new(2).unwrap();
    let guess = test.checked_div(&nth_root).unwrap();
    let root = test
        .newtonian_root_approximation(&nth_root, guess)
        .unwrap()
        .to_imprecise()
        .unwrap();
    assert_eq!(root, 10); // actually 10.049875

    let test = PreciseNumber::new(1_000_000_000).unwrap();
    let nth_root = PreciseNumber::new(2).unwrap();
    let guess = test.checked_div(&nth_root).unwrap();
    let root = test
        .newtonian_root_approximation(&nth_root, guess)
        .unwrap()
        .to_imprecise()
        .unwrap();
    assert_eq!(root, 31_623); // actually 31622.7766

    // 5th root
    let test = PreciseNumber::new(500).unwrap();
    let nth_root = PreciseNumber::new(5).unwrap();
    let guess = test.checked_div(&nth_root).unwrap();
    let root = test
        .newtonian_root_approximation(&nth_root, guess)
        .unwrap()
        .to_imprecise()
        .unwrap();
    assert_eq!(root, 3); // actually 3.46572422
}

#[test]
fn round_trip_returns_original_integer() {
    for x in [0u128, 1, 42, 123_456_789, u128::MAX / ONE] {
        let precise = PreciseNumber::new(x).unwrap();
        assert_eq!(precise.to_imprecise().unwrap(), x);
    }
}

#[test]
fn integer_pow_exponents_zero_and_one_are_exact() {
    for x in [1u128, 2, 7, 1_000_000] {
        let base = PreciseNumber::new(x).unwrap();
        let pow_zero = base.checked_pow(0).unwrap();
        assert_eq!(pow_zero.value, one());
        let pow_one = base.checked_pow(1).unwrap();
        assert_eq!(pow_one.value, base.value);
    }
}

#[test]
fn integer_pow_two_to_the_tenth_is_exact() {
    let two = PreciseNumber::new(2).unwrap();
    let result = two.checked_pow(10).unwrap();
    assert_eq!(result.value, U256::from(1024u128 * ONE));
    assert_eq!(result.to_imprecise().unwrap(), 1024);
}

#[test]
fn pow_approximation_of_exponent_zero_is_one() {
    for raw in [1u128, ONE / 3, ONE, 2 * ONE] {
        let base = PreciseNumber {
            value: U256::from(raw),
        };
        let zero_exponent = PreciseNumber {
            value: U256::from(0),
        };
        let result = base
            .checked_pow_approximation(&zero_exponent, PreciseNumber::MAX_APPROXIMATION_ITERATIONS)
            .unwrap();
        assert_eq!(result.value, one());
    }
}

#[test]
fn almost_eq_is_symmetric() {
    let cases = [
        (0u128, 0u128, 1u128),
        (5, 105, 100),
        (105, 5, 100),
        (5, 104, 100),
        (ONE, ONE + 99, 100),
    ];
    for (a, b, p) in cases {
        let left = PreciseNumber {
            value: U256::from(a),
        };
        let right = PreciseNumber {
            value: U256::from(b),
        };
        let precision = U256::from(p);
        assert_eq!(
            left.almost_eq(&right, precision),
            right.almost_eq(&left, precision)
        );
    }
}

#[test]
fn unsigned_sub_magnitudes_match_and_flags_oppose() {
    let a = PreciseNumber {
        value: U256::from(700u128),
    };
    let b = PreciseNumber {
        value: U256::from(1000u128),
    };
    let (forward, forward_negative) = a.unsigned_sub(&b);
    let (backward, backward_negative) = b.unsigned_sub(&a);
    assert_eq!(forward.value, U256::from(300u128));
    assert_eq!(forward.value, backward.value);
    assert!(forward_negative);
    assert!(!backward_negative);

    let (same, same_negative) = a.unsigned_sub(&a);
    assert_eq!(same.value, U256::from(0));
    assert!(!same_negative);
}

#[test]
fn div_by_zero_fails() {
    let zero = PreciseNumber {
        value: U256::from(0),
    };
    for x in [0u128, 1, ONE, 123_456_789] {
        let dividend = PreciseNumber::new(x).unwrap();
        assert!(dividend.checked_div(&zero).is_none());
    }
    let huge = PreciseNumber { value: U256::MAX };
    assert!(huge.checked_div(&zero).is_none());
}

#[test]
fn mul_overflow_takes_reduced_precision_fallback() {
    let big = U256::from(1u128) << 200;
    let small = U256::from(1u128 << 60);
    let left = PreciseNumber { value: big };
    let right = PreciseNumber { value: small };
    // the naive product would need 260 bits, so the fallback divides the
    // larger operand by the scale first
    let result = left.checked_mul(&right).unwrap();
    let expected = (big / U256::from(ONE)) * small;
    assert_eq!(result.value, expected);
    // the same call with operands swapped picks the same larger operand
    let swapped = right.checked_mul(&left).unwrap();
    assert_eq!(swapped.value, expected);
}

#[test]
fn mul_fails_when_even_the_fallback_overflows() {
    let huge = PreciseNumber {
        value: U256::MAX / 2,
    };
    assert!(huge.checked_mul(&huge).is_none());
}

#[test]
fn add_and_sub_overflow_and_underflow_fail() {
    let max = PreciseNumber { value: U256::MAX };
    let one_precise = PreciseNumber::new(1).unwrap();
    assert!(max.checked_add(&one_precise).is_none());
    let small = PreciseNumber::new(1).unwrap();
    let large = PreciseNumber::new(2).unwrap();
    assert!(small.checked_sub(&large).is_none());
    assert!(large.checked_sub(&small).is_some());
}

#[test]
fn to_imprecise_fails_when_value_does_not_fit() {
    let huge = PreciseNumber {
        value: U256::MAX / 2,
    };
    assert!(huge.to_imprecise().is_none());
}

#[test]
fn floor_truncates_to_scale() {
    let value = PreciseNumber {
        value: U256::from(3 * ONE + 9_999_999_999),
    };
    let floored = value.floor().unwrap();
    assert_eq!(floored.value, U256::from(3 * ONE));
    assert_eq!(floored.to_imprecise().unwrap(), 3);
}

#[test]
fn newton_fails_on_zero_root() {
    let nine = PreciseNumber::new(9).unwrap();
    let zero_root = PreciseNumber {
        value: U256::from(0),
    };
    let guess = PreciseNumber::new(3).unwrap();
    assert!(nine.newtonian_root_approximation(&zero_root, guess).is_none());
}

#[test]
fn u8_power_and_mul_helpers() {
    let three = U256::from(3u128);
    assert_eq!(checked_u8_power(&three, 4).unwrap(), U256::from(81u128));
    assert_eq!(checked_u8_power(&three, 0).unwrap(), three);
    assert_eq!(checked_u8_power(&three, 1).unwrap(), three);
    assert!(checked_u8_power(&U256::MAX, 2).is_none());

    let seven = U256::from(7u128);
    assert_eq!(checked_u8_mul(&seven, 5).unwrap(), U256::from(35u128));
    assert_eq!(checked_u8_mul(&seven, 0).unwrap(), seven);
    assert!(checked_u8_mul(&U256::MAX, 2).is_none());
}

#[test]
fn almost_equal_is_within_one_raw_unit() {
    let a = U256::from(100u128);
    assert_eq!(almost_equal(&a, &U256::from(101u128)), Some(true));
    assert_eq!(almost_equal(&a, &U256::from(99u128)), Some(true));
    assert_eq!(almost_equal(&a, &U256::from(100u128)), Some(true));
    assert_eq!(almost_equal(&a, &U256::from(102u128)), Some(false));
    assert_eq!(almost_equal(&a, &U256::from(98u128)), Some(false));
}
