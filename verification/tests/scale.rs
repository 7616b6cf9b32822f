use wl_overlay::rounding::{nearest_significand, rounded_quotient};
use wl_overlay::scale::OutputScale;

fn float_physical(logical: u32, scale: f64) -> u32 {
    (logical as f64 * scale).round().max(1.0) as u32
}

fn float_logical(physical: u32, scale: f64) -> u32 {
    ((physical as f64) / scale).round().max(1.0) as u32
}

fn lengths() -> Vec<u32> {
    let mut v: Vec<u32> = (1..4000u32).step_by(7).collect();
    v.extend([90, 1280, 1670, 1920, 2560, 3840, 7680, 65535, 65536]);
    v.extend([i32::MAX as u32, i32::MAX as u32 + 1, u32::MAX - 1, u32::MAX]);
    v
}

#[test]
fn preferred_scales_are_the_binary64_quotients() {
    for n in (1..=3000u32).chain([119, 120, 121, u32::MAX - 1, u32::MAX]) {
        let s = OutputScale::from_preferred(n);
        assert_eq!(f64::from_bits(s.bits()), n as f64 / 120.0, "{n}");
    }
}

#[test]
fn integer_scales_are_exact() {
    for k in (1..=100i32).chain([i32::MAX - 1, i32::MAX]) {
        let s = OutputScale::from_factor(k);
        assert_eq!(f64::from_bits(s.bits()), k as f64, "{k}");
    }
    assert_eq!(OutputScale::from_factor(1), OutputScale::one());
    assert_eq!(OutputScale::one().bits(), 1.0f64.to_bits());
}

#[test]
fn sizes_are_the_binary64_products_and_quotients() {
    for n in (1..=600u32).step_by(3).chain([132, 138, 150, 160, 180, 210, u32::MAX]) {
        let scale = (n as f64 / 120.0).max(1.0);
        let s = OutputScale::from_preferred(n).effective();
        assert_eq!(f64::from_bits(s.bits()), scale, "{n}");
        for len in lengths() {
            assert_eq!(s.to_physical(len), float_physical(len, scale), "{n} {len}");
            assert_eq!(s.to_logical(len), float_logical(len, scale), "{n} {len}");
        }
    }
}

#[test]
fn halves_follow_the_binary64_product() {
    // 90 * 1.15 is 103.5, but the nearest binary64 product is just below it.
    let s = OutputScale::from_preferred(138);
    assert_eq!(s.to_physical(90), 103);
    // 3 * 1.5 is 4.5, exactly, and is rounded away from zero.
    assert_eq!(OutputScale::from_preferred(180).to_physical(3), 5);
    assert_eq!(OutputScale::from_preferred(160).to_logical(2), 2);
}

#[test]
fn sizes_stay_pixel_counts() {
    let s = OutputScale::from_factor(2);
    assert_eq!(s.to_physical(0), 1);
    assert_eq!(s.to_logical(0), 1);
    assert_eq!(s.to_physical(u32::MAX), u32::MAX);
    assert_eq!(OutputScale::from_factor(i32::MAX).to_logical(1), 1);
    assert_eq!(OutputScale::from_factor(i32::MAX).to_physical(u32::MAX), u32::MAX);
}

#[test]
fn unit_scale_keeps_sizes() {
    for len in lengths() {
        assert_eq!(OutputScale::one().to_physical(len), len);
        assert_eq!(OutputScale::one().to_logical(len), len);
    }
}

#[test]
fn physical_covers_logical() {
    for n in 1..=400u32 {
        let s = OutputScale::from_preferred(n).effective();
        for len in [1u32, 2, 3, 799, 1440, 2160] {
            assert!(s.to_physical(len) >= len);
            assert!(s.to_logical(len) <= len);
        }
    }
}

#[test]
fn integer_scale_multiplies_and_divides() {
    let s = OutputScale::from_factor(3);
    assert_eq!(s.to_physical(1280), 3840);
    assert_eq!(s.to_logical(3840), 1280);
    assert_eq!(s.to_physical(s.to_logical(2160)), 2160);
    assert_eq!(s.to_physical(1_431_655_765), 4_294_967_295);
    assert_eq!(s.to_physical(1_431_655_766), u32::MAX);
}

#[test]
fn whole_preferred_scales_are_integer_scales() {
    for k in 1..=40i32 {
        assert_eq!(OutputScale::from_preferred(120 * k as u32), OutputScale::from_factor(k));
    }
    assert!(OutputScale::from_preferred(120).is_one());
    assert!(!OutputScale::from_preferred(121).is_one());
    assert!(!OutputScale::from_preferred(119).is_one());
    assert!(OutputScale::from_preferred(119).effective().is_one());
}

#[test]
fn quotients_round_to_even_and_then_away_from_zero() {
    assert_eq!(nearest_significand(1, 1), (0x10_0000_0000_0000, 52));
    assert_eq!(nearest_significand(3, 2), (0x18_0000_0000_0000, 52));
    // Two to the 53rd power and one lies half way between two numbers.
    assert_eq!(nearest_significand(0x20_0000_0000_0001, 1), (0x10_0000_0000_0000, -1));
    assert_eq!(nearest_significand(0x20_0000_0000_0003, 1), (0x10_0000_0000_0002, -1));
    assert_eq!(rounded_quotient(0, 7), 0);
    assert_eq!(rounded_quotient(1, 2), 1);
    assert_eq!(rounded_quotient(5, 2), 3);
    assert_eq!(rounded_quotient(7, 3), 2);
    assert_eq!(rounded_quotient(0x20_0000_0000_0001, 1), 0x20_0000_0000_0000);
    assert_eq!(rounded_quotient(1, 1 << 40), 0);
}
