use vnpyrs::error::ErrorKind;
use vnpyrs::ident::{gateway_id, pad10, stop_id};
use vnpyrs::numeric::{div_round_half_even, fx_mul, quantize, round_to, UNIT};

const CENT: i64 = UNIT / 100;

#[test]
fn round_to_snaps_a_stray_fraction_to_the_cent() {
    // 100.0000001 to the nearest 0.01 is 100.00.
    assert_eq!(round_to(10_000_000_010, CENT), Ok(100 * UNIT));
}

#[test]
fn round_to_rounds_through_the_decimal_quotient() {
    // 1.234 / 0.05 = 24.68, which rounds to 25: 1.25.
    assert_eq!(round_to(123_400_000, 5_000_000), Ok(125_000_000));
    // 1.221 / 0.05 = 24.42, which rounds to 24: 1.20.
    assert_eq!(round_to(122_100_000, 5_000_000), Ok(120_000_000));
}

#[test]
fn round_to_sends_a_tie_to_the_even_multiple() {
    // 0.00000003 / 0.00000002 = 1.5 -> 2; 0.00000005 / 0.00000002 = 2.5 -> 2.
    assert_eq!(round_to(3, 2), Ok(4));
    assert_eq!(round_to(5, 2), Ok(4));
    assert_eq!(round_to(7, 2), Ok(8));
    assert_eq!(round_to(-3, 2), Ok(-4));
    assert_eq!(round_to(-5, 2), Ok(-4));
}

#[test]
fn round_to_rejects_a_zero_target() {
    assert_eq!(round_to(100 * UNIT, 0), Err(ErrorKind::Numeric));
    assert_eq!(round_to(0, 0), Err(ErrorKind::Numeric));
}

#[test]
fn round_to_keeps_every_multiple_of_the_usual_ticks() {
    let ticks: [i64; 4] = [UNIT / 100, UNIT / 20, UNIT / 4, UNIT];
    let factors: [i64; 9] = [-1_000_003, -7, -1, 0, 1, 2, 3, 999, 23_456_789];
    for t in ticks {
        for k in factors {
            assert_eq!(round_to(k * t, t), Ok(k * t));
        }
    }
}

#[test]
fn round_to_keeps_multiples_of_a_negative_target() {
    assert_eq!(round_to(12 * CENT, -CENT), Ok(12 * CENT));
    assert_eq!(round_to(i64::MIN, -1), Ok(i64::MIN));
}

#[test]
fn round_to_reports_a_result_out_of_range() {
    // The nearest multiple of 6e18 to i64::MAX is 1.2e19, beyond the range.
    assert_eq!(round_to(i64::MAX, 6_000_000_000_000_000_000), Err(ErrorKind::Numeric));
}

#[test]
fn round_to_gives_a_multiple_near_the_value() {
    let values: [i64; 6] = [1, 17, 123_456_789, -987_654_321, 55_555_555_555, -1];
    let targets: [i64; 5] = [3, 7, CENT, 25_000_000, 123];
    for v in values {
        for t in targets {
            let r = round_to(v, t).unwrap();
            assert_eq!(r % t, 0);
            assert!(2 * (r - v).abs() <= t);
        }
    }
}

#[test]
fn quantize_rounds_the_quotient_and_scales_it() {
    // 24.68 -> 25 times 0.05.
    assert_eq!(quantize(2468, 2, 5_000_000), Ok(125_000_000));
    // 2.5 -> 2, 3.5 -> 4, -2.5 -> -2.
    assert_eq!(quantize(25, 1, 10), Ok(20));
    assert_eq!(quantize(35, 1, 10), Ok(40));
    assert_eq!(quantize(-25, 1, 10), Ok(-20));
    assert_eq!(quantize(7, 0, 3), Ok(21));
}

#[test]
fn quantize_reports_what_does_not_fit() {
    assert_eq!(quantize(1, 39, 1), Err(ErrorKind::Numeric));
    assert_eq!(quantize(i128::MAX, 0, 2), Err(ErrorKind::Numeric));
    assert_eq!(quantize(i64::MAX as i128, 0, 2), Err(ErrorKind::Numeric));
    assert_eq!(quantize(1, 38, 5), Ok(0));
}

#[test]
fn div_round_half_even_rounds_to_nearest_with_ties_to_even() {
    assert_eq!(div_round_half_even(7, 2), 4);
    assert_eq!(div_round_half_even(5, 2), 2);
    assert_eq!(div_round_half_even(-5, 2), -2);
    assert_eq!(div_round_half_even(-7, 2), -4);
    assert_eq!(div_round_half_even(10, 3), 3);
    assert_eq!(div_round_half_even(11, 3), 4);
    assert_eq!(div_round_half_even(-10, 3), -3);
    assert_eq!(div_round_half_even(0, 5), 0);
    assert_eq!(div_round_half_even(i128::MAX, 1), i128::MAX);
    assert_eq!(div_round_half_even(i128::MIN, 1), i128::MIN);
}

#[test]
fn fx_mul_multiplies_fixed_point_numbers() {
    let two = 2 * UNIT as i128;
    let half = UNIT as i128 / 2;
    assert_eq!(fx_mul(two, half), Some(UNIT as i128));
    assert_eq!(fx_mul(-two, two), Some(-4 * UNIT as i128));
    // 0.00000001 * 0.5 is a tie and goes to zero; 0.00000003 * 0.5 goes to 2.
    assert_eq!(fx_mul(1, half), Some(0));
    assert_eq!(fx_mul(3, half), Some(2));
    assert_eq!(fx_mul(i128::MAX, 2), None);
}

#[test]
fn pad10_aligns_a_number_in_ten_columns() {
    assert_eq!(pad10(0), "         0");
    assert_eq!(pad10(1), "         1");
    assert_eq!(pad10(42), "        42");
    assert_eq!(pad10(9_999_999_999), "9999999999");
    assert_eq!(pad10(10_000_000_000), "10000000000");
    assert_eq!(pad10(u64::MAX), "18446744073709551615");
    assert_eq!(pad10(1_234_567_890), format!("{:10}", 1_234_567_890u64));
    assert_eq!(pad10(907), format!("{:10}", 907u64));
}

#[test]
fn identifiers_bear_their_prefix() {
    assert_eq!(gateway_id(7), "BACKTESTING.         7");
    assert_eq!(stop_id(3), "STOP.         3");
}

#[test]
fn identifiers_rise_in_the_order_of_text() {
    let mut last = gateway_id(1);
    for n in [2u64, 9, 10, 11, 99, 100, 12_345, 999_999_999, 1_000_000_000, 9_999_999_999] {
        let next = gateway_id(n);
        assert!(last < next);
        last = next;
    }
}
