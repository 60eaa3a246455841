use userdata_api::double::{power_of_two, Double};

fn time(seconds: f64) -> Double {
    Double::from_bits(seconds.to_bits())
}

#[test]
fn bits_are_kept() {
    assert_eq!(time(1.5).to_bits(), 1.5f64.to_bits());
    assert_eq!(Double::from_bits(7).bits, 7);
}

#[test]
fn whole_seconds_compare_as_numbers() {
    assert!(time(0.0).at_most(0));
    assert!(time(0.0).at_most(1));
    assert!(time(1.0).at_most(1));
    assert!(!time(1.0).at_most(0));
    assert!(time(119.0).at_most(120));
    assert!(time(120.0).at_most(120));
    assert!(!time(121.0).at_most(120));
    assert!(time(4294967295.0).at_most(u32::MAX));
    assert!(!time(4294967296.0).at_most(u32::MAX));
}

#[test]
fn fractions_are_not_rounded() {
    assert!(time(119.99999999999999).at_most(120));
    assert!(!time(120.00000000000001).at_most(120));
    assert!(time(0.5).at_most(1));
    assert!(!time(0.5).at_most(0));
    assert!(!time(1.0000000000000002).at_most(1));
    assert!(time(0.9999999999999999).at_most(1));
    assert!(time(299.99999999999994).at_most(300));
    assert!(!time(300.00000000000006).at_most(300));
}

#[test]
fn tiny_and_huge_times() {
    assert!(time(f64::MIN_POSITIVE).at_most(1));
    assert!(!time(f64::MIN_POSITIVE).at_most(0));
    assert!(time(5e-324).at_most(1));
    assert!(!time(5e-324).at_most(0));
    assert!(time(1.0e-300).at_most(1));
    assert!(!time(f64::MAX).at_most(u32::MAX));
    assert!(!time(1.0e19).at_most(u32::MAX));
    assert!(!time(f64::INFINITY).at_most(u32::MAX));
}

#[test]
fn a_nan_is_at_most_nothing() {
    assert!(!time(f64::NAN).at_most(0));
    assert!(!time(f64::NAN).at_most(u32::MAX));
    assert!(!time(-f64::NAN).at_most(u32::MAX));
    assert!(!Double::from_bits(0x7ff0_0000_0000_0001).at_most(9));
    assert!(!Double::from_bits(0xfff8_0000_0000_0000).at_most(9));
}

#[test]
fn negative_times_are_below_every_limit() {
    assert!(time(-0.0).at_most(0));
    assert!(time(-1.0).at_most(0));
    assert!(time(-1.0e300).at_most(5));
    assert!(time(f64::NEG_INFINITY).at_most(0));
}

#[test]
fn agrees_with_the_machine_on_a_sweep() {
    let mut bits: u64 = 0x3fe0_0000_0000_0000;
    let mut checked: u32 = 0;
    while bits < 0x4200_0000_0000_0000 {
        let seconds = f64::from_bits(bits);
        for limit in [0u32, 1, 2, 119, 120, 121, 300, 301, 65536, u32::MAX] {
            assert_eq!(
                Double::from_bits(bits).at_most(limit),
                seconds <= limit as f64
            );
            checked += 1;
        }
        bits += 0x0000_1234_5678_9abd;
    }
    assert!(checked > 1000);
}

#[test]
fn powers_of_two() {
    assert_eq!(power_of_two(0), 1);
    assert_eq!(power_of_two(1), 2);
    assert_eq!(power_of_two(10), 1024);
    assert_eq!(power_of_two(52), 0x10_0000_0000_0000);
    assert_eq!(power_of_two(63), 0x8000_0000_0000_0000);
}

#[test]
fn whole_numbers_are_kept() {
    assert_eq!(time(0.0).truncated(), 0);
    assert_eq!(time(1.0).truncated(), 1);
    assert_eq!(time(-1.0).truncated(), -1);
    assert_eq!(time(1_000_000_000.0).truncated(), 1_000_000_000);
    assert_eq!(time(100_000_000_000_000.0).truncated(), 100_000_000_000_000);
    assert_eq!(time(9_007_199_254_740_992.0).truncated(), 9_007_199_254_740_992);
    assert_eq!(time(4_611_686_018_427_387_904.0).truncated(), 4_611_686_018_427_387_904);
}

#[test]
fn fractions_are_cut_towards_zero() {
    assert_eq!(time(0.9999999999999999).truncated(), 0);
    assert_eq!(time(-0.9999999999999999).truncated(), 0);
    assert_eq!(time(1.9999999999999998).truncated(), 1);
    assert_eq!(time(-1.9999999999999998).truncated(), -1);
    assert_eq!(time(999_999_999.9999999).truncated(), 999_999_999);
    assert_eq!(time(2.5).truncated(), 2);
    assert_eq!(time(-2.5).truncated(), -2);
    assert_eq!(time(5e-324).truncated(), 0);
    assert_eq!(time(-0.0).truncated(), 0);
}

#[test]
fn numbers_beyond_the_range_saturate() {
    assert_eq!(time(9_223_372_036_854_775_808.0).truncated(), i64::MAX);
    assert_eq!(time(9_223_372_036_854_774_784.0).truncated(), 9_223_372_036_854_774_784);
    assert_eq!(time(-9_223_372_036_854_775_808.0).truncated(), i64::MIN);
    assert_eq!(time(-9_223_372_036_854_777_856.0).truncated(), i64::MIN);
    assert_eq!(time(1.0e300).truncated(), i64::MAX);
    assert_eq!(time(-1.0e300).truncated(), i64::MIN);
    assert_eq!(time(f64::INFINITY).truncated(), i64::MAX);
    assert_eq!(time(f64::NEG_INFINITY).truncated(), i64::MIN);
    assert_eq!(time(f64::NAN).truncated(), 0);
    assert_eq!(time(-f64::NAN).truncated(), 0);
}

#[test]
fn truncation_agrees_with_the_machine_on_a_sweep() {
    let mut bits: u64 = 0;
    let mut checked: u32 = 0;
    loop {
        let number = f64::from_bits(bits);
        assert_eq!(Double::from_bits(bits).truncated(), number as i64);
        checked += 1;
        match bits.checked_add(0x0003_1234_5678_9abd) {
            Some(next) => bits = next,
            None => break,
        }
    }
    assert!(checked > 10_000);
}
