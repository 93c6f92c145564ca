use bookit::alias::{self, Alias};
use bookit::calendar::{CalendarDate, Timestamp};
use bookit::contractors::{self, Contractor};
use bookit::errors::CliError;
use bookit::generics::{apply_filterset, filtered_set, get_default_items, Filter};
use bookit::hours::{self, newest_first, HourLog};
use std::cmp::Ordering;

fn log(id: &str, alias: &str, secs: i64) -> HourLog {
    HourLog {
        alias: alias.into(),
        minutes: 30,
        date: CalendarDate::new(2024, 3, 1).unwrap(),
        message: None,
        ticket: None,
        branch: None,
        id: id.into(),
        timestamp: Timestamp::new(secs, 0).unwrap(),
    }
}

fn ids(v: &[HourLog]) -> Vec<String> {
    v.iter().map(|h| h.id.clone()).collect()
}

fn by_alias(a: &str) -> hours::F {
    hours::F::ByAlias(a.into())
}

#[test]
fn empty_chain_passes_input_unchanged() {
    let items = vec![log("b", "x", 2), log("a", "y", 1)];
    let r = apply_filterset::<HourLog, hours::F, hours::S>(items.clone(), vec![]).unwrap();
    assert_eq!(r, items);
}

#[test]
fn empty_chain_on_empty_input_succeeds() {
    let r = apply_filterset::<HourLog, hours::F, hours::S>(vec![], vec![]);
    assert_eq!(r, Ok(vec![]));
}

#[test]
fn filter_on_empty_input_fails() {
    let r = apply_filterset::<HourLog, hours::F, hours::S>(vec![], vec![hours::F::NoFilter]);
    assert_eq!(r, Err(CliError::FilterNoResults));
}

#[test]
fn chain_fails_when_first_filter_empties() {
    let items = vec![log("a", "x", 1), log("b", "y", 2)];
    let r = apply_filterset::<HourLog, hours::F, hours::S>(items, vec![by_alias("z"), hours::F::NoFilter]);
    assert_eq!(r, Err(CliError::FilterNoResults));
}

#[test]
fn alias_filter_scenario() {
    let items = vec![log("a", "x", 1), log("b", "y", 2)];
    let one = apply_filterset::<HourLog, hours::F, hours::S>(items.clone(), vec![by_alias("x")]).unwrap();
    assert_eq!(ids(&one), vec!["a".to_string()]);
    let none = apply_filterset::<HourLog, hours::F, hours::S>(items.clone(), vec![by_alias("x"), by_alias("z")]).unwrap();
    assert!(none.is_empty());
    let r = apply_filterset::<HourLog, hours::F, hours::S>(
        items,
        vec![by_alias("x"), by_alias("z"), hours::F::NoFilter],
    );
    assert_eq!(r, Err(CliError::FilterNoResults));
}

#[test]
fn default_items_are_unchanged() {
    let items = vec![log("b", "x", 1), log("a", "y", 5)];
    assert_eq!(get_default_items::<HourLog, hours::F, hours::S>(items.clone()), items);
    let cs = vec![
        Contractor { slug: "b".into(), name: "B".into() },
        Contractor { slug: "a".into(), name: "A".into() },
    ];
    assert_eq!(get_default_items::<Contractor, contractors::F, contractors::S>(cs.clone()), cs);
}

#[test]
fn default_sort_alone_keeps_order() {
    let items = vec![log("b", "x", 1), log("a", "y", 5), log("c", "y", 3)];
    assert_eq!(HourLog::sort(items.clone(), HourLog::default_sort()), items);
    assert_eq!(HourLog::filter(items.clone(), HourLog::default_filter()), items);
}

#[test]
fn sort_by_timestamp_is_newest_first_and_stable() {
    let items = vec![log("a", "x", 1), log("b", "x", 5), log("c", "x", 1), log("d", "x", 3)];
    let sorted = HourLog::sort(items, hours::S::ByTimestamp);
    assert_eq!(ids(&sorted), vec!["b", "d", "a", "c"]);
}

#[test]
fn sort_by_timestamp_orders_nanoseconds() {
    let mut early = log("early", "x", 10);
    early.timestamp = Timestamp::new(10, 5).unwrap();
    let mut late = log("late", "x", 10);
    late.timestamp = Timestamp::new(10, 7).unwrap();
    let sorted = HourLog::sort(vec![early, late], hours::S::ByTimestamp);
    assert_eq!(ids(&sorted), vec!["late", "early"]);
}

#[test]
fn newest_first_compares() {
    assert_eq!(newest_first(&log("a", "x", 5), &log("b", "x", 1)), Ordering::Less);
    assert_eq!(newest_first(&log("a", "x", 1), &log("b", "x", 5)), Ordering::Greater);
    assert_eq!(newest_first(&log("a", "x", 1), &log("b", "x", 1)), Ordering::Equal);
}

#[test]
fn filtered_set_filters_then_sorts() {
    let items = vec![log("a", "x", 1), log("b", "y", 2), log("c", "x", 3)];
    let r = filtered_set::<HourLog, hours::F, hours::S>(items, vec![by_alias("x")], hours::S::ByTimestamp).unwrap();
    assert_eq!(ids(&r), vec!["c", "a"]);
}

#[test]
fn filtered_set_reports_empty_result() {
    let r = filtered_set::<HourLog, hours::F, hours::S>(vec![], vec![by_alias("x")], hours::S::NoSort);
    assert_eq!(r, Err(CliError::FilterNoResults));
}

fn alias_record(slug: &str, contractor: &str) -> Alias {
    Alias { slug: slug.into(), contractor: contractor.into(), short_description: "".into(), hourly_rate: 10 }
}

#[test]
fn alias_filter_by_contractor() {
    let items = vec![alias_record("a", "acme"), alias_record("b", "globex"), alias_record("c", "acme")];
    let r = Alias::filter(items, alias::F::Contractor("acme".into()));
    let slugs: Vec<String> = r.iter().map(|a| a.slug.clone()).collect();
    assert_eq!(slugs, vec!["a", "c"]);
}

#[test]
fn hours_filter_directives() {
    assert_eq!(hours::F::from_str("nofilter"), Ok(hours::F::NoFilter));
    assert_eq!(hours::F::from_str("alias::proj"), Ok(hours::F::ByAlias("proj".into())));
    assert_eq!(hours::F::from_str("alias::"), Ok(hours::F::ByAlias("".into())));
    assert_eq!(
        hours::F::from_str("ticket::x"),
        Err(CliError::Directive { input: "ticket::x".into(), context: "Cannot filter on given field".into() })
    );
    assert_eq!(
        hours::F::from_str("whatever"),
        Err(CliError::Directive { input: "whatever".into(), context: "Invalid filter query".into() })
    );
}

#[test]
fn hours_sort_directives() {
    assert_eq!(hours::S::from_str("no_sort"), Ok(hours::S::NoSort));
    assert_eq!(hours::S::from_str("ts"), Ok(hours::S::ByTimestamp));
    assert_eq!(hours::S::from_str("timestamp"), Ok(hours::S::ByTimestamp));
    assert_eq!(hours::S::from_str("date"), Err(CliError::InvalidSortQuery { input: "date".into() }));
}

#[test]
fn alias_filter_directives() {
    assert_eq!(alias::F::from_str("contract::acme"), Ok(alias::F::Contractor("acme".into())));
    assert_eq!(
        alias::F::from_str("rate::10"),
        Err(CliError::InvalidFilterField { field: "rate".into() })
    );
    assert!(matches!(alias::F::from_str("acme"), Err(CliError::Directive { .. })));
    assert_eq!(alias::S::from_str("anything"), Ok(alias::S::NoSort));
}

#[test]
fn contractor_directives() {
    assert_eq!(contractors::F::from_str("anything"), Ok(contractors::F::NoFilter));
    assert_eq!(contractors::S::from_str("anything"), Ok(contractors::S::NoSort));
}
