use chrono::{TimeZone, Utc};
use kron::clock::{sleep_duration_until, Clock, SystemClock};
use kron::error::KronError;
use kron::schedule::{
    duration_str_fits, parse_duration_str, CronAnswer, Schedule,
};
use kron::timestamp::{Timestamp, MAX_SECS, MIN_SECS};
use kron::weekday::complete_cron;

fn at(year: i32, month: u32, day: u32, hour: u32, minute: u32) -> Timestamp {
    let t = Utc.with_ymd_and_hms(year, month, day, hour, minute, 0).unwrap();
    Timestamp::new(t.timestamp(), t.timestamp_subsec_nanos()).unwrap()
}

#[test]
fn parses_duration_suffixes() {
    assert_eq!(parse_duration_str("90s").unwrap(), 90);
    assert_eq!(parse_duration_str("30m").unwrap(), 1800);
    assert_eq!(parse_duration_str("2h").unwrap(), 7200);
    assert_eq!(parse_duration_str("1d").unwrap(), 86400);
    assert!(parse_duration_str("10").is_err());
}

#[test]
fn parses_seconds_minutes_hours_days() {
    for n in [1u64, 2, 59, 60, 777, 9_999] {
        for suffix in ["s", "m", "h", "d"] {
            let parsed = parse_duration_str(&format!("{n}{suffix}")).unwrap();
            assert!(parsed >= n);
        }
    }
}

#[test]
fn cron_uses_requested_timezone() {
    let schedule = Schedule::Cron {
        expr: "0 8 * * *".to_string(),
    };
    let after = at(2026, 6, 10, 5, 30);
    let next = schedule
        .next_run_after(after, "Europe/Rome")
        .unwrap()
        .unwrap();
    assert_eq!(next, at(2026, 6, 10, 6, 0));
}

#[test]
fn cron_handles_europe_rome_spring_forward() {
    let schedule = Schedule::Cron {
        expr: "30 2 * * *".to_string(),
    };
    let after = at(2026, 3, 28, 23, 0);
    let next = schedule
        .next_run_after(after, "Europe/Rome")
        .unwrap()
        .unwrap();
    assert!(after.before(&next));
}

#[test]
fn cron_handles_europe_rome_fall_back() {
    let schedule = Schedule::Cron {
        expr: "30 2 * * *".to_string(),
    };
    let after = at(2026, 10, 24, 23, 0);
    let next = schedule
        .next_run_after(after, "Europe/Rome")
        .unwrap()
        .unwrap();
    assert!(after.before(&next));
}

#[test]
fn invalid_timezone_is_rejected() {
    let schedule = Schedule::Every { seconds: 10 };
    assert!(schedule
        .next_run_after(SystemClock.now(), "Nope/Nowhere")
        .is_err());
}

#[test]
fn one_shot_schedule_returns_none_after_fire_time() {
    let fire = at(2026, 6, 10, 8, 0);
    let schedule = Schedule::At { at: fire };
    assert!(schedule
        .next_run_after(fire.plus(1).unwrap(), "UTC")
        .unwrap()
        .is_none());
    assert!(schedule.is_one_shot());
}

#[test]
fn errors_name_what_is_wrong() {
    let now = at(2026, 6, 10, 8, 0);
    let schedule = Schedule::Every { seconds: 10 };
    assert_eq!(
        schedule.next_run_after(now, "Nope/Nowhere").unwrap_err(),
        KronError::InvalidTimezone("Nope/Nowhere".to_string())
    );
    let cron = Schedule::Cron {
        expr: "this is not cron".to_string(),
    };
    assert!(matches!(
        cron.next_run_after(now, "UTC").unwrap_err(),
        KronError::InvalidCron(_)
    ));
    assert_eq!(
        parse_duration_str(" 10x ").unwrap_err(),
        KronError::InvalidCron("duration must end with s/m/h/d: 10x".to_string())
    );
    assert_eq!(
        parse_duration_str("tens").unwrap_err(),
        KronError::InvalidCron("invalid duration: tens".to_string())
    );
    assert!(parse_duration_str("").is_err());
}

#[test]
fn invalid_cron_says_what_the_parser_says() {
    let reason = "0 99 * * * * *".parse::<cron::Schedule>().unwrap_err();
    let schedule = Schedule::Cron {
        expr: "99 * * * *".to_string(),
    };
    match schedule.next_run_after(at(2026, 6, 10, 8, 0), "UTC").unwrap_err() {
        KronError::InvalidCron(message) => assert_eq!(message, reason.to_string()),
        other => panic!("unexpected error {other:?}"),
    }
}

#[test]
fn intervals_repeat_and_one_shots_do_not() {
    let now = at(2026, 6, 10, 8, 0);
    let every = Schedule::Every { seconds: 60 };
    assert_eq!(every.next_run_after(now, "UTC").unwrap(), now.plus(60));
    let after = Schedule::After {
        seconds: 30,
        registered_at: now,
    };
    assert_eq!(after.next_run_after(now, "UTC").unwrap(), now.plus(30));
    assert_eq!(
        after.next_run_after(now.plus(30).unwrap(), "UTC").unwrap(),
        None
    );
    assert!(!every.is_one_shot());
    assert!(after.is_one_shot());
}

#[test]
fn what_cannot_be_computed_is_told() {
    let now = at(2026, 6, 10, 8, 0);
    let far = Schedule::Every {
        seconds: i64::MAX as u64,
    };
    assert!(!far.fits(now, "UTC"));
    assert!(far.checked_next_run_after(now, "UTC").is_none());
    assert!(far.checked_next_run_after(now, "Nope/Nowhere").unwrap().is_err());
    let near = Schedule::Every { seconds: 5 };
    assert_eq!(
        near.checked_next_run_after(now, "UTC").unwrap().unwrap(),
        now.plus(5)
    );
    assert!(duration_str_fits("5d"));
    assert!(!duration_str_fits("18446744073709551615d"));
}

#[test]
fn answers_of_the_cron_crate_are_passed_on() {
    let now = at(2026, 6, 10, 8, 0);
    let schedule = Schedule::Cron {
        expr: "* * * * *".to_string(),
    };
    let next = now.plus(60);
    assert_eq!(
        schedule
            .next_run_given(now, "UTC", true, CronAnswer::Next(next))
            .unwrap(),
        next
    );
    assert_eq!(
        schedule
            .next_run_given(now, "UTC", true, CronAnswer::Invalid("no".to_string()))
            .unwrap_err(),
        KronError::InvalidCron("no".to_string())
    );
    assert_eq!(
        schedule
            .next_run_given(now, "Mars", false, CronAnswer::Next(None))
            .unwrap_err(),
        KronError::InvalidTimezone("Mars".to_string())
    );
}

#[test]
fn schedules_are_told_apart() {
    let now = at(2026, 6, 10, 8, 0);
    assert!(Schedule::At { at: now }.same(&Schedule::At { at: now }));
    assert!(!Schedule::At { at: now }.same(&Schedule::Every { seconds: 1 }));
    let a = Schedule::Cron { expr: "0 8 * * *".to_string() };
    assert!(a.same(&a.clone()));
}

#[test]
fn the_range_of_instants_is_that_of_chrono() {
    assert_eq!(chrono::DateTime::<Utc>::MIN_UTC.timestamp(), MIN_SECS);
    assert_eq!(chrono::DateTime::<Utc>::MAX_UTC.timestamp(), MAX_SECS);
    assert!(Timestamp::new(MAX_SECS, 999_999_999).is_some());
    assert!(Timestamp::new(MAX_SECS + 1, 0).is_none());
    assert!(Timestamp::new(0, 1_000_000_000).is_none());
    assert!(Timestamp::new(59, 1_500_000_000).is_some());
}

#[test]
fn adding_seconds_agrees_with_chrono() {
    for (secs, nanos) in [(59i64, 1_500_000_000u32), (1_781_000_000, 7), (-1, 999_999_999)] {
        for step in [-86_400i64, -1, 0, 1, 3_600] {
            let ours = Timestamp::new(secs, nanos).unwrap().plus(step).unwrap();
            let theirs = chrono::DateTime::from_timestamp(secs, nanos).unwrap()
                + chrono::Duration::seconds(step);
            assert_eq!(ours.secs(), theirs.timestamp());
            assert_eq!(ours.nanos(), theirs.timestamp_subsec_nanos());
        }
    }
}

#[test]
fn milliseconds_agree_with_chrono() {
    for (a, b) in [
        ((59i64, 1_500_000_000u32), (60i64, 0u32)),
        ((1_000, 0), (1_001, 500_000_000)),
        ((2_000, 0), (1_000, 0)),
    ] {
        let ours = Timestamp::new(b.0, b.1)
            .unwrap()
            .millis_since(&Timestamp::new(a.0, a.1).unwrap());
        let theirs = (chrono::DateTime::from_timestamp(b.0, b.1).unwrap()
            - chrono::DateTime::from_timestamp(a.0, a.1).unwrap())
        .num_milliseconds()
        .max(0) as u64;
        assert_eq!(ours, theirs);
    }
}

#[test]
fn sleeping_ends_at_the_deadline() {
    let now = at(2026, 6, 10, 8, 0);
    assert_eq!(sleep_duration_until(now.plus(2), now), 2_000);
    assert_eq!(sleep_duration_until(Some(now), now.plus(5).unwrap()), 0);
    assert_eq!(sleep_duration_until(None, now), 100);
}

#[test]
fn the_system_clock_shows_the_time() {
    let before = Utc::now().timestamp();
    let now = SystemClock.now();
    assert!(now.nanos() < 1_000_000_000);
    let shown = now.secs();
    assert!(before <= shown && shown <= Utc::now().timestamp());
}

#[test]
fn cron_runs_lie_after_the_instant() {
    let cron = Schedule::Cron {
        expr: "*/5 * * * *".to_string(),
    };
    for (secs, zone) in [
        (946_684_800, "UTC"),
        (1_781_000_000, "UTC"),
        (1_761_438_600, "Europe/Rome"),
        (1_761_442_200, "Europe/Rome"),
        (1_774_744_200, "Europe/Rome"),
    ] {
        let after = Timestamp::new(secs, 500_000_000).unwrap();
        let next = cron.checked_next_run_after(after, zone).unwrap().unwrap();
        let next = next.unwrap();
        assert!(after.before(&next));
        assert_eq!(next.secs() % 300, 0);
    }
    let early = Timestamp::new(946_684_800, 0).unwrap();
    assert!(cron.checked_next_run_after(early, "Pacific/Apia").is_none());
    assert!(!cron.fits(early, "Pacific/Apia"));
    for (secs, zone) in [
        (-50_000_000_000, "Europe/Rome"),
        (-1_000_000_000, "Asia/Manila"),
        (-1, "UTC"),
        (0, "America/New_York"),
        (744_000_000, "Asia/Manila"),
        (1_270_000_000, "UTC"),
        (1_325_000_000, "Pacific/Auckland"),
    ] {
        let after = Timestamp::new(secs, 0).unwrap();
        assert!(cron.fits(after, zone));
        let next = cron.next_run_after(after, zone).unwrap().unwrap();
        assert!(after.before(&next));
    }
    let ancient = Timestamp::new(-100_000_000_000, 0).unwrap();
    assert_eq!(cron.next_run_after(ancient, "UTC").unwrap(), None);
    assert!(cron.next_run_after(ancient, "Nope/Nowhere").is_err());
    let invalid = Schedule::Cron { expr: "x".to_string() };
    assert!(invalid.next_run_after(ancient, "UTC").is_err());
}

/// The next run at eight, in days after Wednesday, the 10th of June 2026.
fn days_until(weekday: &str) -> i64 {
    let from = Timestamp::new(1781049600, 0).unwrap();
    let schedule = Schedule::Cron { expr: format!("0 8 * * {weekday}") };
    let next = schedule.next_run_after(from, "UTC").unwrap().unwrap();
    (next.secs() - from.secs() - 8 * 3600) / 86_400
}

#[test]
fn weekdays_count_from_sunday_as_zero() {
    let monday = Timestamp::new(1781510400, 0).unwrap();
    let schedule = Schedule::Cron { expr: "0 8 * * 1".to_string() };
    let from = Timestamp::new(1781049600, 0).unwrap();
    assert_eq!(schedule.next_run_after(from, "UTC").unwrap(), Some(monday));
    for (weekday, days) in [
        ("0", 4), ("7", 4), ("1", 5), ("2", 6), ("3", 0), ("4", 1), ("5", 2), ("6", 3),
        ("07", 4), ("0,6", 3), ("5-7", 2), ("6-7", 3), ("0-2", 4), ("1-2", 5), ("1,2", 5),
        ("0-6", 0), ("0-7", 0), ("*", 0), ("?", 0), ("*/3", 0), ("*/6", 3), ("1/4", 2),
        ("0-4/4", 1), ("7/2", 4), ("MON", 5), ("MON-TUE", 5), ("sat,1", 3), ("1, 5", 2),
    ] {
        assert_eq!(days_until(weekday), days, "{weekday}");
    }
}

#[test]
fn weekdays_that_are_none_are_rejected() {
    let from = Timestamp::new(1781049600, 0).unwrap();
    for weekday in ["8", "5-1", "1-9", "1/0", "x", "1 2", "+1", "-1"] {
        let schedule = Schedule::Cron { expr: format!("0 8 * * {weekday}") };
        assert!(schedule.next_run_after(from, "UTC").is_err(), "{weekday}");
    }
}

#[test]
fn expressions_are_completed_for_the_parser() {
    assert_eq!(complete_cron("0 8 * * 1-5"), "0 0 8 * * 2,3,4,5,6 *");
    assert_eq!(complete_cron("5 4 1 1 0,7"), "0 5 4 1 1 1,1 *");
    assert_eq!(complete_cron(" 0\t8 * *  6-7"), "0  0\t8 * *  7,1 *");
    assert_eq!(complete_cron("0 8 * * 0-6/2"), "0 0 8 * * 1,3,5,7 *");
    assert_eq!(complete_cron("0 8 * * 2/3"), "0 0 8 * * 3,6 *");
    assert_eq!(complete_cron("*/5 1-7 1 2 *"), "0 */5 1-7 1 2 * *");
    assert_eq!(complete_cron("1 2 3"), "0 1 2 3 *");
    assert_eq!(complete_cron(""), "0  *");
}
