use via_voice::clock::{epoch_millis, system_clock, Clock};

#[test]
fn an_elapsed_time_converts_to_epoch_milliseconds() {
    assert_eq!(epoch_millis(None), 0);
    assert_eq!(epoch_millis(Some(1_700_000_000_000)), 1_700_000_000_000);
    assert_eq!(epoch_millis(Some(u128::MAX)), i64::MAX);
    assert_eq!(epoch_millis(Some(i64::MAX as u128 + 1)), i64::MAX);
}

#[test]
fn the_system_clock_reads_after_the_epoch() {
    assert!(system_clock().now_ms() > 1_600_000_000_000);
}
