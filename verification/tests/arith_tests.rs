use doomlike::arith::clamp_range;
use doomlike::arith::clamp_to_i32;
use doomlike::arith::div_floor;
use doomlike::arith::isqrt;
use doomlike::arith::wrap_into;

#[test]
fn clamp_to_i32_keeps_what_fits() {
    assert_eq!(clamp_to_i32(0), 0);
    assert_eq!(clamp_to_i32(-5), -5);
    assert_eq!(clamp_to_i32(i32::MAX as i128), i32::MAX);
    assert_eq!(clamp_to_i32(i32::MIN as i128), i32::MIN);
}

#[test]
fn clamp_to_i32_saturates() {
    assert_eq!(clamp_to_i32(i32::MAX as i128 + 1), i32::MAX);
    assert_eq!(clamp_to_i32(i32::MIN as i128 - 1), i32::MIN);
    assert_eq!(clamp_to_i32(i128::MAX), i32::MAX);
    assert_eq!(clamp_to_i32(i128::MIN), i32::MIN);
}

#[test]
fn clamp_range_limits_both_ends() {
    assert_eq!(clamp_range(-10, 1, 119), 1);
    assert_eq!(clamp_range(1, 1, 119), 1);
    assert_eq!(clamp_range(60, 1, 119), 60);
    assert_eq!(clamp_range(119, 1, 119), 119);
    assert_eq!(clamp_range(5_000_000_000, 1, 119), 119);
}

#[test]
fn div_floor_rounds_down() {
    assert_eq!(div_floor(7, 2), 3);
    assert_eq!(div_floor(-7, 2), -4);
    assert_eq!(div_floor(-1, 65536), -1);
    assert_eq!(div_floor(-65536, 65536), -1);
    assert_eq!(div_floor(-65537, 65536), -2);
    assert_eq!(div_floor(0, 9), 0);
    assert_eq!(div_floor(i128::MIN, 1), i128::MIN);
}

#[test]
fn wrap_into_is_never_negative() {
    assert_eq!(wrap_into(-1, 5), 4);
    assert_eq!(wrap_into(-5, 5), 0);
    assert_eq!(wrap_into(-6, 5), 4);
    assert_eq!(wrap_into(0, 5), 0);
    assert_eq!(wrap_into(12, 5), 2);
    assert_eq!(wrap_into(364, 360), 4);
    assert_eq!(wrap_into(-4, 360), 356);
}

#[test]
fn isqrt_of_small_numbers() {
    let expected: [u128; 18] = [0, 1, 1, 1, 2, 2, 2, 2, 2, 3, 3, 3, 3, 3, 3, 3, 4, 4];
    let mut n: u128 = 0;
    while n < 18 {
        assert_eq!(isqrt(n), expected[n as usize]);
        n += 1;
    }
}

#[test]
fn isqrt_around_squares() {
    assert_eq!(isqrt(24), 4);
    assert_eq!(isqrt(25), 5);
    assert_eq!(isqrt(26), 5);
    assert_eq!(isqrt(1_000_000), 1000);
    assert_eq!(isqrt(999_999), 999);
    assert_eq!(isqrt(0xffff_ffff * 0xffff_ffff), 0xffff_ffff);
    assert_eq!(isqrt(0xffff_ffff * 0xffff_ffff - 1), 0xffff_fffe);
}

#[test]
fn isqrt_of_the_largest_number() {
    assert_eq!(isqrt(u128::MAX), 0xffff_ffff_ffff_ffff);
}
