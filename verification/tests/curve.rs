use snail::curve::{pow, WAD};
use snail::snail_game::SnailError;

#[test]
fn pow_of_zero_base_is_zero() {
    assert_eq!(pow(0, 0), Ok(0));
    assert_eq!(pow(0, WAD), Ok(0));
    assert_eq!(pow(0, WAD / 2), Ok(0));
    assert_eq!(pow(0, 7 * WAD + 3), Ok(0));
    assert_eq!(pow(0, u128::MAX), Ok(0));
}

#[test]
fn pow_to_zero_is_one() {
    assert_eq!(pow(1, 0), Ok(WAD));
    assert_eq!(pow(WAD / 3, 0), Ok(WAD));
    assert_eq!(pow(WAD, 0), Ok(WAD));
    assert_eq!(pow(u128::MAX, 0), Ok(WAD));
}

#[test]
fn pow_to_one_is_the_base() {
    assert_eq!(pow(1, WAD), Ok(1));
    assert_eq!(pow(WAD / 3, WAD), Ok(WAD / 3));
    assert_eq!(pow(5 * WAD, WAD), Ok(5 * WAD));
    assert_eq!(pow(u128::MAX, WAD), Ok(u128::MAX));
}

#[test]
fn pow_of_one_is_one() {
    assert_eq!(pow(WAD, 1), Ok(WAD));
    assert_eq!(pow(WAD, WAD / 2), Ok(WAD));
    assert_eq!(pow(WAD, 5 * WAD + 17), Ok(WAD));
    assert_eq!(pow(WAD, 1_000_000 * WAD), Ok(WAD));
}

#[test]
fn pow_whole_exponents() {
    assert_eq!(pow(WAD / 2, 2 * WAD), Ok(250_000_000_000_000_000));
    assert_eq!(pow(2 * WAD, 2 * WAD), Ok(4 * WAD));
    assert_eq!(pow(3 * WAD, 3 * WAD), Ok(27 * WAD));
    assert_eq!(pow(10 * WAD, 2 * WAD), Ok(100 * WAD));
}

#[test]
fn pow_fractional_exponents_blend_in_a_straight_line() {
    // Half way between 0.5 and 0.25.
    assert_eq!(pow(WAD / 2, 3 * WAD / 2), Ok(375_000_000_000_000_000));
    assert_eq!(pow(WAD / 3, 5 * WAD + WAD / 7), Ok(3_723_300_019_596_316));
}

#[test]
fn pow_exponents_below_one() {
    assert_eq!(pow(WAD / 4, WAD / 2), Ok(625_000_000_000_000_000));
    assert_eq!(pow(WAD / 2, WAD / 2), Ok(750_000_000_000_000_000));
    assert_eq!(pow(1, WAD / 2), Ok(500_000_000_000_000_001));
}

#[test]
fn pow_of_a_base_above_one_fails_on_a_fraction() {
    assert_eq!(pow(2 * WAD, 3 * WAD / 2), Err(SnailError::MathOverflow));
    assert_eq!(pow(WAD + 1, WAD / 2), Err(SnailError::MathOverflow));
    assert_eq!(pow(WAD + 1, 2 * WAD + 1), Err(SnailError::MathOverflow));
}

#[test]
fn pow_fails_where_a_product_leaves_128_bits() {
    assert_eq!(pow(1u128 << 100, 2 * WAD), Err(SnailError::MathOverflow));
    assert_eq!(pow(10 * WAD, 3 * WAD), Err(SnailError::MathOverflow));
    assert_eq!(pow(u128::MAX, 2 * WAD), Err(SnailError::MathOverflow));
}

#[test]
fn pow_never_fails_up_to_one() {
    let bases = [1u128, 7, WAD / 1000, WAD / 3, WAD / 2, WAD - 1, WAD];
    let exponents = [1u128, WAD / 2, WAD - 1, WAD + 1, 2 * WAD, 5 * WAD, 5 * WAD + 1, 40 * WAD + 9];
    for b in bases {
        for e in exponents {
            let v = pow(b, e).unwrap();
            assert!(v <= WAD);
        }
    }
}

#[test]
fn pow_does_not_fall_when_the_base_rises() {
    let exponents = [WAD / 3, WAD + 1, 3 * WAD / 2, 2 * WAD, 5 * WAD, 4_080_000_000_000_000_000];
    for e in exponents {
        let mut last = 0u128;
        let mut b = 0u128;
        while b <= WAD {
            let v = pow(b, e).unwrap();
            assert!(last <= v);
            last = v;
            b += WAD / 64;
        }
    }
    assert!(pow(2 * WAD, 3 * WAD).unwrap() <= pow(3 * WAD, 3 * WAD).unwrap());
}

#[test]
fn pow_does_not_rise_when_the_exponent_grows() {
    let bases = [1u128, WAD / 10, WAD / 2, WAD - 1, WAD];
    for b in bases {
        let mut last = WAD;
        let mut e = 0u128;
        while e <= 6 * WAD {
            let v = pow(b, e).unwrap();
            assert!(v <= last);
            last = v;
            e += WAD / 8;
        }
    }
}

#[test]
fn pow_keeps_the_order_of_bases_below_the_exponent_one() {
    // A larger base gives a larger result below the exponent one as well.
    let low = pow(WAD / 4, WAD / 2).unwrap();
    let high = pow(WAD / 2, WAD / 2).unwrap();
    assert!(low < high);
    // With an exponent this small every base rounds to one.
    assert_eq!(pow(WAD / 4, 1), Ok(WAD));
    assert_eq!(pow(WAD / 2, 1), Ok(WAD));
}
