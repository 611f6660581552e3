use chrono::TimeZone;
use stamp_tree::clock::{
    carry, parse_timestamp, resolve, resolve_instant, resolve_local, settle, Instant, TimeError,
    WallTime, TIMESTAMP_FORMAT,
};

#[test]
fn the_format_is_date_then_time() {
    assert_eq!(TIMESTAMP_FORMAT, "%Y-%m-%d %H:%M:%S");
}

#[test]
fn a_timestamp_reads_as_seconds_on_the_wall_clock() {
    assert_eq!(
        parse_timestamp("2023-06-15 10:30:00"),
        Ok(WallTime { seconds: 1_686_825_000, nanoseconds: 0 })
    );
}

#[test]
fn the_epoch_reads_as_zero() {
    assert_eq!(parse_timestamp("1970-01-01 00:00:00"), Ok(WallTime { seconds: 0, nanoseconds: 0 }));
}

#[test]
fn a_reading_before_the_epoch_is_negative() {
    assert_eq!(
        parse_timestamp("1969-12-31 23:59:59"),
        Ok(WallTime { seconds: -1, nanoseconds: 0 })
    );
}

#[test]
fn a_leap_second_keeps_the_second_and_adds_to_the_nanoseconds() {
    assert_eq!(
        parse_timestamp("2016-12-31 23:59:60"),
        Ok(WallTime { seconds: 1_483_228_799, nanoseconds: 1_000_000_000 })
    );
}

#[test]
fn slashes_are_no_timestamp() {
    assert_eq!(parse_timestamp("2023/06/15"), Err(TimeError::Malformed));
}

#[test]
fn a_date_alone_is_no_timestamp() {
    assert_eq!(parse_timestamp("2023-06-15"), Err(TimeError::Malformed));
}

#[test]
fn an_empty_text_is_no_timestamp() {
    assert_eq!(parse_timestamp(""), Err(TimeError::Malformed));
}

#[test]
fn a_thirteenth_month_is_no_timestamp() {
    assert_eq!(parse_timestamp("2023-13-01 00:00:00"), Err(TimeError::Malformed));
}

#[test]
fn a_twenty_fifth_hour_is_no_timestamp() {
    assert_eq!(parse_timestamp("2023-06-15 24:00:00"), Err(TimeError::Malformed));
}

#[test]
fn the_thirtieth_of_february_is_no_timestamp() {
    assert_eq!(parse_timestamp("2023-02-30 12:00:00"), Err(TimeError::Malformed));
}

#[test]
fn text_after_the_seconds_is_no_timestamp() {
    assert_eq!(parse_timestamp("2023-06-15 10:30:00 UTC"), Err(TimeError::Malformed));
}

#[test]
fn an_instant_keeps_its_nanoseconds_below_a_second() {
    assert_eq!(Instant::new(5, 999_999_999), Some(Instant { seconds: 5, nanoseconds: 999_999_999 }));
    assert_eq!(Instant::new(-7, 0), Some(Instant { seconds: -7, nanoseconds: 0 }));
    assert_eq!(Instant::new(5, 1_000_000_000), None);
    assert_eq!(Instant::new(5, u32::MAX), None);
}

#[test]
fn nanoseconds_below_a_second_are_kept_as_they_are() {
    assert_eq!(carry(5, 0), Some(Instant { seconds: 5, nanoseconds: 0 }));
    assert_eq!(carry(5, 999_999_999), Some(Instant { seconds: 5, nanoseconds: 999_999_999 }));
    assert_eq!(carry(-3, 7), Some(Instant { seconds: -3, nanoseconds: 7 }));
}

#[test]
fn a_full_second_among_the_nanoseconds_is_carried_over() {
    assert_eq!(carry(5, 1_000_000_000), Some(Instant { seconds: 6, nanoseconds: 0 }));
    assert_eq!(
        carry(1_483_228_799, 1_250_000_000),
        Some(Instant { seconds: 1_483_228_800, nanoseconds: 250_000_000 })
    );
    assert_eq!(carry(-1, 1_500_000_000), Some(Instant { seconds: 0, nanoseconds: 500_000_000 }));
    assert_eq!(carry(0, u32::MAX), Some(Instant { seconds: 4, nanoseconds: 294_967_295 }));
}

#[test]
fn a_carry_past_the_last_second_gives_nothing() {
    assert_eq!(carry(i64::MAX, 1_000_000_000), None);
    assert_eq!(carry(i64::MAX - 3, u32::MAX), None);
    assert_eq!(
        carry(i64::MAX, 999_999_999),
        Some(Instant { seconds: i64::MAX, nanoseconds: 999_999_999 })
    );
    assert_eq!(
        carry(i64::MAX - 1, 1_000_000_000),
        Some(Instant { seconds: i64::MAX, nanoseconds: 0 })
    );
    assert_eq!(carry(i64::MIN, 0), Some(Instant { seconds: i64::MIN, nanoseconds: 0 }));
}

#[test]
fn a_single_answer_of_the_zone_is_the_instant() {
    let instant = Instant { seconds: 1_686_825_000, nanoseconds: 0 };
    assert_eq!(resolve(Some(instant)), Ok(instant));
}

#[test]
fn no_single_answer_of_the_zone_is_an_error() {
    assert_eq!(resolve(None), Err(TimeError::Unresolvable));
}

#[test]
fn an_answer_of_the_zone_settles_into_an_instant() {
    assert_eq!(
        settle(Some((1_686_825_000, 0))),
        Ok(Instant { seconds: 1_686_825_000, nanoseconds: 0 })
    );
    assert_eq!(settle(Some((-5, 123))), Ok(Instant { seconds: -5, nanoseconds: 123 }));
}

#[test]
fn a_leap_second_settles_into_the_second_after() {
    assert_eq!(
        settle(Some((1_483_228_799, 1_000_000_000))),
        Ok(Instant { seconds: 1_483_228_800, nanoseconds: 0 })
    );
    assert_eq!(
        settle(Some((59, 1_999_999_999))),
        Ok(Instant { seconds: 60, nanoseconds: 999_999_999 })
    );
}

#[test]
fn no_answer_and_an_answer_past_the_last_second_settle_into_an_error() {
    assert_eq!(settle(None), Err(TimeError::Unresolvable));
    assert_eq!(settle(Some((i64::MAX, 1_000_000_000))), Err(TimeError::Unresolvable));
}

#[test]
fn the_local_instant_keeps_the_part_below_the_second_in_a_leap_second() {
    let leap = resolve_local(WallTime { seconds: 1_483_228_799, nanoseconds: 1_750_000_000 })
        .expect("the reading exists once");
    assert_eq!(leap.nanoseconds, 750_000_000);
    assert!((leap.seconds - 1 - 1_483_228_799).abs() < 86_400);
}

#[test]
fn the_local_instant_is_the_one_chrono_names() {
    let expected = chrono::Local
        .with_ymd_and_hms(2023, 6, 15, 10, 30, 0)
        .single()
        .expect("a summer morning exists once in every zone");
    assert_eq!(
        resolve_local(WallTime { seconds: 1_686_825_000, nanoseconds: 0 }),
        Ok(Instant { seconds: expected.timestamp(), nanoseconds: 0 })
    );
}

#[test]
fn the_local_instant_lies_within_a_day_of_the_reading() {
    let resolved = resolve_local(WallTime { seconds: 1_686_825_000, nanoseconds: 0 });
    let instant = resolved.expect("a summer morning exists once in every zone");
    assert!((instant.seconds - 1_686_825_000).abs() <= 86_400);
    assert_eq!(instant.nanoseconds, 0);
}

#[test]
fn a_leap_second_resolves_to_the_second_after() {
    let before = resolve_local(WallTime { seconds: 1_483_228_799, nanoseconds: 0 })
        .expect("the reading exists once");
    let leap = resolve_local(WallTime { seconds: 1_483_228_799, nanoseconds: 1_000_000_000 })
        .expect("the reading exists once");
    assert_eq!(leap, Instant { seconds: before.seconds + 1, nanoseconds: 0 });
}

#[test]
fn a_fraction_of_a_second_is_kept() {
    let whole = resolve_local(WallTime { seconds: 1_686_825_000, nanoseconds: 0 })
        .expect("the reading exists once");
    let part = resolve_local(WallTime { seconds: 1_686_825_000, nanoseconds: 250 })
        .expect("the reading exists once");
    assert_eq!(part, Instant { seconds: whole.seconds, nanoseconds: 250 });
}

#[test]
fn a_reading_that_is_no_time_of_day_resolves_to_nothing() {
    assert_eq!(
        resolve_local(WallTime { seconds: 0, nanoseconds: 3_000_000_000 }),
        Err(TimeError::Unresolvable)
    );
    assert_eq!(
        resolve_local(WallTime { seconds: 10, nanoseconds: 1_000_000_000 }),
        Err(TimeError::Unresolvable)
    );
}

#[test]
fn a_year_far_ahead_resolves_like_any_other() {
    let wall = parse_timestamp("+40000-01-01 00:00:00").expect("a reading");
    let instant = resolve_local(wall).expect("the reading exists once");
    assert!((instant.seconds - wall.seconds).abs() <= 86_400);
    assert_eq!(instant.nanoseconds, 0);
}

#[test]
fn a_year_long_past_resolves_like_any_other() {
    let wall = parse_timestamp("1500-07-01 12:00:00").expect("a reading");
    let instant = resolve_local(wall).expect("the reading exists once");
    assert!(instant.seconds < 0);
    assert!((instant.seconds - wall.seconds).abs() <= 86_400);
    assert_eq!(instant.nanoseconds, 0);
}

#[test]
fn a_reading_beyond_the_calendar_resolves_to_nothing() {
    assert_eq!(
        resolve_local(WallTime { seconds: i64::MAX, nanoseconds: 0 }),
        Err(TimeError::Unresolvable)
    );
    assert_eq!(
        resolve_local(WallTime { seconds: i64::MIN, nanoseconds: 0 }),
        Err(TimeError::Unresolvable)
    );
}

#[test]
fn a_timestamp_resolves_to_the_instant_chrono_names() {
    let expected = chrono::Local
        .with_ymd_and_hms(2023, 6, 15, 10, 30, 0)
        .single()
        .expect("a summer morning exists once in every zone");
    assert_eq!(
        resolve_instant("2023-06-15 10:30:00"),
        Ok(Instant { seconds: expected.timestamp(), nanoseconds: 0 })
    );
}

#[test]
fn a_malformed_timestamp_resolves_to_nothing() {
    assert_eq!(resolve_instant("2023/06/15"), Err(TimeError::Malformed));
    assert_eq!(resolve_instant("yesterday"), Err(TimeError::Malformed));
}

#[test]
fn each_time_error_has_its_sentence() {
    assert_eq!(
        TimeError::Malformed.message(),
        "Timestamp is not of the form YYYY-MM-DD HH:MM:SS"
    );
    assert_eq!(TimeError::Unresolvable.message(), "Invalid or ambiguous datetime");
}
