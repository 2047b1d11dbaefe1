use xiaoai::stereo_core::sync::ClockSync as WindowedClockSync;
use xiaoai::sync::{micros_or_zero, now_us, ClockSync};

#[test]
fn simple_clock_offset_from_one_exchange() {
    let mut c = ClockSync::new();
    assert_eq!(c.offset, 0);
    // Round trip of 200 us; the server stamped 5000 half-way.
    c.update(1000, 5000, 1200);
    assert_eq!(c.offset, 3900);
    assert_eq!(c.to_server_time(1200), 5100);
    assert_eq!(c.to_client_time(5100), 1200);
}

#[test]
fn simple_clock_round_trip_of_conversions() {
    let mut c = ClockSync::new();
    c.update(10, 1_000_000, 30);
    for t in [0u128, 1, 17, 123_456_789] {
        assert_eq!(c.to_client_time(c.to_server_time(t)), t);
    }
}

#[test]
fn simple_clock_odd_round_trip_halves_toward_zero() {
    let mut c = ClockSync::new();
    c.update(0, 100, 3);
    // rtt 3, half is 1: 100 + 1 - 3.
    assert_eq!(c.offset, 98);
}

#[test]
fn simple_clock_negative_result_wraps_like_a_cast() {
    let c = ClockSync { offset: -10 };
    assert_eq!(c.to_server_time(5), u128::MAX - 4);
    assert_eq!(c.to_client_time(u128::MAX), 9);
}

#[test]
fn simple_clock_reinterprets_huge_times_as_signed() {
    let c = ClockSync { offset: 0 };
    assert_eq!(c.to_server_time(u128::MAX), u128::MAX);
    let d = ClockSync { offset: 1 };
    // u128::MAX reads as -1, plus 1 is 0.
    assert_eq!(d.to_server_time(u128::MAX), 0);
}

#[test]
fn now_is_after_2020() {
    let t = now_us();
    assert!(t > 1_577_836_800_000_000);
    let t2 = xiaoai::stereo_core::sync::now_us();
    assert!(t2 >= t);
}

#[test]
fn windowed_clock_uses_median_of_window() {
    let mut c = WindowedClockSync::new(3);
    assert_eq!(c.current_offset, 0);
    // With send == recv the offset is the server stamp.
    c.update(0, 10, 0);
    assert_eq!(c.current_offset, 10);
    c.update(0, 30, 0);
    assert_eq!(c.current_offset, 30);
    c.update(0, 20, 0);
    assert_eq!(c.current_offset, 20);
    // The oldest (10) leaves: window 30, 20, 100.
    c.update(0, 100, 0);
    assert_eq!(c.current_offset, 30);
    assert_eq!(c.offset_in_use(), 30);
}

#[test]
fn windowed_clock_ignores_slow_exchanges() {
    let mut c = WindowedClockSync::new(5);
    c.update(0, 50, 0);
    assert_eq!(c.current_offset, 50);
    c.update(0, 999_999, 100_001);
    assert_eq!(c.current_offset, 50);
    // Exactly the limit is used: 7 + 50_000 - 100_000.
    c.update(0, 7, 100_000);
    assert_eq!(c.current_offset, 50);
    c.update(0, 60, 0);
    // Window 50, -49_993, 60: median 50.
    assert_eq!(c.current_offset, 50);
}

#[test]
fn windowed_clock_of_capacity_zero_keeps_its_offset() {
    let mut c = WindowedClockSync::new(0);
    c.update(0, 77, 0);
    assert_eq!(c.current_offset, 0);
}

#[test]
fn windowed_clock_converts_with_median() {
    let mut c = WindowedClockSync::new(4);
    c.update(0, 1000, 0);
    c.update(0, 1002, 0);
    // Even window: index 1 of [1000, 1002].
    assert_eq!(c.current_offset, 1002);
    assert_eq!(c.to_server_time(5), 1007);
    assert_eq!(c.to_client_time(1007), 5);
}

#[test]
fn a_clock_before_the_epoch_reads_zero() {
    assert_eq!(micros_or_zero(Some(1_700_000_000_000_000)), 1_700_000_000_000_000);
    assert_eq!(micros_or_zero(None), 0);
}
