use engine::time::Timestamp;
use engine::time::NANOS_PER_DAY;
use engine::time::NANOS_PER_MINUTE;
use engine::time::REFERENCE_EPOCH_NANOS;

#[test]
fn unix_epoch_is_instant_zero() {
    assert_eq!(Timestamp::from_utc(1970, 1, 1, 0, 0, 0), Some(Timestamp { nanos: 0 }));
    assert_eq!(Timestamp::from_utc(1970, 1, 1, 0, 0, 1), Some(Timestamp { nanos: 1_000_000_000 }));
    assert_eq!(Timestamp::from_utc(1969, 12, 31, 23, 59, 59), Some(Timestamp { nanos: -1_000_000_000 }));
}

#[test]
fn reference_epoch_is_noon_of_22_june_2021() {
    let noon = Timestamp::from_utc(2021, 6, 22, 12, 0, 0);
    assert_eq!(noon, Some(Timestamp { nanos: REFERENCE_EPOCH_NANOS }));
    assert_eq!(noon, Some(Timestamp::reference_epoch()));
    assert_eq!(REFERENCE_EPOCH_NANOS, 1_624_363_200_000_000_000);
}

#[test]
fn from_utc_agrees_with_the_calendar_library() {
    let expected = chrono::NaiveDate::from_ymd_opt(2024, 2, 29)
        .unwrap()
        .and_hms_opt(23, 59, 59)
        .unwrap()
        .and_utc()
        .timestamp_nanos_opt()
        .unwrap();
    assert_eq!(Timestamp::from_utc(2024, 2, 29, 23, 59, 59), Some(Timestamp::from_nanos(expected)));
    assert_eq!(expected, 1_709_251_199_000_000_000);
}

#[test]
fn from_utc_rejects_what_is_no_date_or_time() {
    assert_eq!(Timestamp::from_utc(2021, 2, 29, 0, 0, 0), None);
    assert_eq!(Timestamp::from_utc(2021, 13, 1, 0, 0, 0), None);
    assert_eq!(Timestamp::from_utc(2021, 0, 1, 0, 0, 0), None);
    assert_eq!(Timestamp::from_utc(2021, 4, 31, 0, 0, 0), None);
    assert_eq!(Timestamp::from_utc(2021, 6, 22, 24, 0, 0), None);
    assert_eq!(Timestamp::from_utc(2021, 6, 22, 12, 60, 0), None);
    assert_eq!(Timestamp::from_utc(2021, 6, 22, 12, 0, 60), None);
}

#[test]
fn from_utc_rejects_what_is_no_count_of_nanoseconds() {
    assert_eq!(Timestamp::from_utc(2262, 4, 11, 23, 47, 16), Some(Timestamp { nanos: 9_223_372_036_000_000_000 }));
    assert_eq!(Timestamp::from_utc(2262, 4, 11, 23, 47, 17), None);
    assert_eq!(Timestamp::from_utc(1677, 9, 21, 0, 12, 43), None);
    assert_eq!(Timestamp::from_utc(1677, 9, 21, 0, 12, 44), Some(Timestamp { nanos: -9_223_372_036_000_000_000 }));
    assert_eq!(Timestamp::from_utc(300_000, 1, 1, 0, 0, 0), None);
}

#[test]
fn at_nanos_keeps_the_count() {
    assert_eq!(Timestamp::at_nanos(Some(42)), Some(Timestamp { nanos: 42 }));
    assert_eq!(Timestamp::at_nanos(None), None);
    assert_eq!(Timestamp::from_nanos(-7).nanos, -7);
}

#[test]
fn time_index_is_zero_at_the_reference_epoch() {
    assert_eq!(Timestamp::reference_epoch().time_index(), 0);
}

#[test]
fn time_index_counts_whole_minutes_toward_zero() {
    let epoch = REFERENCE_EPOCH_NANOS;
    assert_eq!(Timestamp::from_nanos(epoch + NANOS_PER_MINUTE - 1).time_index(), 0);
    assert_eq!(Timestamp::from_nanos(epoch + NANOS_PER_MINUTE).time_index(), 1);
    assert_eq!(Timestamp::from_nanos(epoch - NANOS_PER_MINUTE + 1).time_index(), 0);
    assert_eq!(Timestamp::from_nanos(epoch - NANOS_PER_MINUTE).time_index(), -1);
    assert_eq!(Timestamp::from_nanos(epoch - NANOS_PER_MINUTE - 1).time_index(), -1);
    assert_eq!(Timestamp::from_nanos(epoch + 12_345 * NANOS_PER_MINUTE).time_index(), 12_345);
    assert_eq!(Timestamp::from_nanos(epoch + NANOS_PER_DAY).time_index(), 1_440);
}

#[test]
fn time_index_of_the_midnight_before_the_epoch() {
    let midnight = Timestamp::from_utc(2021, 6, 22, 0, 0, 0).unwrap();
    assert_eq!(midnight.time_index(), -720);
}

#[test]
fn time_index_at_the_ends_of_the_time_line() {
    assert_eq!(Timestamp::from_nanos(i64::MAX).time_index(), 126_650_147);
    assert_eq!(Timestamp::from_nanos(i64::MIN).time_index(), -180_795_587);
}

#[test]
fn minutes_since_takes_any_epoch() {
    let midnight = Timestamp::from_utc(2021, 6, 22, 0, 0, 0).unwrap();
    let noon = Timestamp::from_utc(2021, 6, 22, 12, 0, 0).unwrap();
    assert_eq!(midnight.minutes_since(midnight), 0);
    assert_eq!(noon.minutes_since(midnight), 720);
    assert_eq!(midnight.minutes_since(noon), -720);
    assert_eq!(Timestamp::from_nanos(i64::MAX).minutes_since(Timestamp::from_nanos(i64::MIN)), 307_445_734);
    assert_eq!(Timestamp::from_nanos(i64::MIN).minutes_since(Timestamp::from_nanos(i64::MAX)), -307_445_734);
}

#[test]
fn checked_add_stops_at_the_ends_of_the_time_line() {
    let t = Timestamp::from_nanos(10);
    assert_eq!(t.checked_add(5), Some(Timestamp { nanos: 15 }));
    assert_eq!(t.checked_add(-15), Some(Timestamp { nanos: -5 }));
    assert_eq!(t.checked_add(i64::MAX), None);
    assert_eq!(Timestamp::from_nanos(i64::MAX).checked_add(0), Some(Timestamp { nanos: i64::MAX }));
    assert_eq!(Timestamp::from_nanos(i64::MIN).checked_add(-1), None);
}
