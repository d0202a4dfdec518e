use city_sim::math_utils::{AsI32, AsU32};
use city_sim::utils::math::{round_even_up, round_to_single, RoundEvenUp};

#[test]
fn round_even_up_moves_even_numbers_to_the_next_odd_one() {
    assert_eq!(round_even_up(0), 1);
    assert_eq!(round_even_up(4), 5);
    assert_eq!(round_even_up(5), 5);
    assert_eq!(round_even_up(u32::MAX), u32::MAX);
    assert_eq!(round_even_up(u32::MAX - 1), u32::MAX);
}

#[test]
fn round_even_up_method_on_u32_and_u64() {
    assert_eq!(8u32.round_even_up(), 9);
    assert_eq!(9u32.round_even_up(), 9);
    assert_eq!(1_000_000_000_000u64.round_even_up(), 1_000_000_000_001);
    assert_eq!(7u64.round_even_up(), 7);
}

#[test]
fn rounding_even_up_twice_changes_nothing_more() {
    for n in 0u32..50 {
        let r = round_even_up(n);
        assert_eq!(r % 2, 1);
        assert!(n <= r && r <= n + 1);
        assert_eq!(round_even_up(r), r);
    }
}

#[test]
fn array_casts() {
    assert_eq!([1i32, -1, 7].as_u32(), [1u32, u32::MAX, 7]);
    assert_eq!([1u32, u32::MAX, 7].as_i32(), [1i32, -1, 7]);
    assert_eq!([4u32, 5].as_u32(), [4u32, 5]);
    assert_eq!([-4i32, 5].as_i32(), [-4i32, 5]);
}

#[test]
fn round_to_single_matches_conversion_to_f32() {
    assert_eq!(round_to_single(100), 100);
    assert_eq!(round_to_single(16777217), 16777216);
    assert_eq!(round_to_single(16777219), 16777220);
    assert_eq!(round_to_single(33554431), 33554432);
    assert_eq!(round_to_single(2147483647), 2147483648);
    for c in [0u64, 1, 16777215, 16777216, 16777218, 33554433, 33554434, 33554435, 123456789, 2147483520, 2147483583, 2147483584, 2147483648] {
        assert_eq!(round_to_single(c), (c as i64 as f32) as u64);
    }
}
