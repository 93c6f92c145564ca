use bookit::calendar::{CalendarDate, Timestamp};
use bookit::config::{Action, Subject};
use bookit::directives::{parse_minutes, DateDirective, TimeDirective};
use bookit::errors::CliError;
use bookit::generics::Crud;
use bookit::hours::HourLog;

#[test]
fn calendar_dates_are_checked() {
    let d = CalendarDate::new(2024, 2, 29).unwrap();
    assert_eq!((d.year(), d.month(), d.day()), (2024, 2, 29));
    assert!(CalendarDate::new(2023, 2, 29).is_none());
    assert!(CalendarDate::new(1900, 2, 29).is_none());
    assert!(CalendarDate::new(2000, 2, 29).is_some());
    assert!(CalendarDate::new(2024, 4, 31).is_none());
    assert!(CalendarDate::new(2024, 13, 1).is_none());
    assert!(CalendarDate::new(2024, 1, 0).is_none());
}

#[test]
fn timestamps_are_checked_and_ordered() {
    let a = Timestamp::new(100, 0).unwrap();
    let b = Timestamp::new(100, 1).unwrap();
    assert!(b.is_after(&a));
    assert!(!a.is_after(&b));
    assert!(!a.is_after(&a));
    assert!(Timestamp::new(-5, 999_999_999).unwrap().is_after(&Timestamp::new(-6, 1_500_000_000).unwrap()));
    assert!(Timestamp::new(0, 2_000_000_000).is_none());
    assert_eq!(Timestamp::new(7, 8).map(|t| (t.seconds(), t.nanos())), Some((7, 8)));
}

fn date() -> CalendarDate {
    CalendarDate::new(2024, 3, 1).unwrap()
}

#[test]
fn with_hash_lowercases_the_hash() {
    let h = HourLog::with_hash(
        "proj".into(),
        45,
        date(),
        Some("such important".into()),
        None,
        None,
        "AbCdE".into(),
        Timestamp::new(1, 0).unwrap(),
    );
    assert_eq!(h.id, "abcde");
    assert_eq!(h.identifier(), "abcde");
    assert_eq!(h.minutes, 45);
    assert_eq!(h.message, Some("such important".into()));
}

#[test]
fn create_names_the_log_by_its_moment() {
    let now = Timestamp::new(1_600_000_000, 0).unwrap();
    let a = HourLog::create("flooby".into(), 30, date(), None, Some("RAS-002".into()), None, now).unwrap();
    let b = HourLog::create("other".into(), 10, date(), None, None, None, now).unwrap();
    assert!(!a.id.is_empty());
    assert_eq!(a.id, a.id.to_lowercase());
    assert_eq!(a.id, b.id);
    assert_eq!(a.alias, "flooby");
    assert_eq!(a.ticket, Some("RAS-002".into()));
    assert_eq!(a.timestamp, now);
    let later = HourLog::create("flooby".into(), 30, date(), None, None, None, Timestamp::new(1_600_000_001, 0).unwrap()).unwrap();
    assert_ne!(a.id, later.id);
    assert_eq!(a.duplicate(), a);
}

#[test]
fn minutes_parse_like_u32() {
    assert_eq!(parse_minutes("90"), Some(90));
    assert_eq!(parse_minutes("+7"), Some(7));
    assert_eq!(parse_minutes("007"), Some(7));
    assert_eq!(parse_minutes("4294967295"), Some(u32::MAX));
    assert_eq!(parse_minutes("4294967296"), None);
    assert_eq!(parse_minutes(""), None);
    assert_eq!(parse_minutes("+"), None);
    assert_eq!(parse_minutes("-1"), None);
    assert_eq!(parse_minutes("1.5"), None);
    assert_eq!(parse_minutes(" 1"), None);
}

#[test]
fn time_directives() {
    assert_eq!(TimeDirective::from_str("45"), Ok(TimeDirective::Minutes(45)));
    assert_eq!(TimeDirective::from_str("h::1.5"), Ok(TimeDirective::Hours("1.5".into())));
    assert_eq!(TimeDirective::from_str("s::08:00"), Ok(TimeDirective::Since("08:00".into())));
    assert_eq!(TimeDirective::from_str("t::17:30"), Ok(TimeDirective::Until("17:30".into())));
    assert_eq!(TimeDirective::from_str("abc"), Err(CliError::InvalidMinutes { input: "abc".into() }));
    assert_eq!(TimeDirective::from_str("x::1"), Err(CliError::InvalidTime { input: "x::1".into() }));
}

#[test]
fn date_directives() {
    assert_eq!(DateDirective::from_str("Today"), DateDirective::Today);
    assert_eq!(DateDirective::from_str("yesterday"), DateDirective::Yesterday);
    assert_eq!(DateDirective::from_str("MON"), DateDirective::Weekday("mon".into()));
    assert_eq!(DateDirective::from_str("2024-03-01"), DateDirective::Calendar("2024-03-01".into()));
    assert_eq!(DateDirective::weeks_back(3, 0), 0);
    assert_eq!(DateDirective::weeks_back(0, 3), 1);
    assert_eq!(DateDirective::weeks_back(2, 2), 1);
}

#[test]
fn config_words() {
    assert_eq!(Action::from_str("new"), Ok(Action::Create));
    assert_eq!(Action::from_str("update"), Ok(Action::Update));
    assert_eq!(Action::from_str("show"), Ok(Action::Inspect));
    assert_eq!(Action::from_str("delete"), Ok(Action::Delete));
    assert_eq!(Action::from_str("drop"), Err("Unknown action: drop".to_string()));
    assert_eq!(Subject::from_str("contract"), Ok(Subject::Contractor));
    assert_eq!(Subject::from_str("contractor"), Ok(Subject::Contractor));
    assert_eq!(Subject::from_str("alias"), Ok(Subject::Alias));
    assert_eq!(Subject::from_str("hours"), Err("Unknown config subject: hours".to_string()));
}
