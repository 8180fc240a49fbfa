use waifu_bot::modules::calendar::recurrence::{parse_recurring_event, Frequency, RecurringEvent};
use waifu_bot::modules::calendar::timestamp::Timestamp;

fn rule(text: &str) -> RecurringEvent {
    parse_recurring_event(text).unwrap()
}

#[test]
fn weekly_rule_with_day_and_end() {
    let r = rule("FREQ=WEEKLY;BYDAY=MO;UNTIL=20250101T000000Z;");
    assert_eq!(r.frequency(), Frequency::Weekly);
    assert_eq!(r.until(), Some(Timestamp::new(2025, 1, 1, 0, 0, 0).unwrap()));
    assert_eq!(r.by_day().map(|d| d.as_str()), Some("MO"));
    assert_eq!(r.by_month_day(), None);
    assert_eq!(r.count(), None);
}

#[test]
fn rule_without_semicolon_at_the_end() {
    let r = rule("FREQ=WEEKLY;BYDAY=MO;UNTIL=20250101T000000Z");
    assert_eq!(r.frequency(), Frequency::Weekly);
    assert_eq!(r.until(), Some(Timestamp::new(2025, 1, 1, 0, 0, 0).unwrap()));
    assert_eq!(r.by_day().map(|d| d.as_str()), Some("MO"));
}

#[test]
fn the_four_frequencies() {
    assert_eq!(rule("FREQ=YEARLY").frequency(), Frequency::Yearly);
    assert_eq!(rule("FREQ=MONTHLY;").frequency(), Frequency::Monthly);
    assert_eq!(rule("FREQ=WEEKLY").frequency(), Frequency::Weekly);
    assert_eq!(rule("FREQ=DAILY;").frequency(), Frequency::Daily);
    let r = rule("FREQ=DAILY");
    assert_eq!(r.until(), None);
    assert_eq!(r.by_day(), None);
}

#[test]
fn order_of_the_parts_is_free() {
    let r = rule("UNTIL=20250101;BYMONTHDAY=15;FREQ=MONTHLY");
    assert_eq!(r.frequency(), Frequency::Monthly);
    assert_eq!(r.until(), Some(Timestamp::new(2025, 1, 1, 0, 0, 0).unwrap()));
    assert_eq!(r.by_month_day(), Some(15));
}

#[test]
fn unknown_frequency_is_no_rule() {
    assert!(parse_recurring_event("FREQ=HOURLY;").is_none());
    assert!(parse_recurring_event("FREQ=weekly;").is_none());
    assert!(parse_recurring_event("FREQ=;").is_none());
    assert!(parse_recurring_event("FREQ=WEEKLYX").is_none());
}

#[test]
fn rule_needs_a_frequency() {
    assert!(parse_recurring_event("").is_none());
    assert!(parse_recurring_event(";").is_none());
    assert!(parse_recurring_event("BYDAY=MO;").is_none());
    assert!(parse_recurring_event("UNTIL=20250101T000000Z").is_none());
}

#[test]
fn unknown_parts_are_no_rule() {
    assert!(parse_recurring_event("FREQ=WEEKLY;INTERVAL=2").is_none());
    assert!(parse_recurring_event("FREQ=WEEKLY;BYDAY").is_none());
    assert!(parse_recurring_event("FREQ=WEEKLY;junk").is_none());
    assert!(parse_recurring_event("FREQ").is_none());
    assert!(parse_recurring_event("FREQ=").is_none());
    assert!(parse_recurring_event(" FREQ=WEEKLY").is_none());
    assert!(parse_recurring_event("freq=WEEKLY").is_none());
}

#[test]
fn empty_parts_are_passed_over() {
    let r = rule("FREQ=DAILY;;BYDAY=TU;");
    assert_eq!(r.frequency(), Frequency::Daily);
    assert_eq!(r.by_day().map(|d| d.as_str()), Some("TU"));
}

#[test]
fn day_of_month() {
    assert_eq!(rule("FREQ=MONTHLY;BYMONTHDAY=15;").by_month_day(), Some(15));
    assert_eq!(rule("FREQ=MONTHLY;BYMONTHDAY=0").by_month_day(), Some(0));
    assert_eq!(rule("FREQ=MONTHLY;BYMONTHDAY=007").by_month_day(), Some(7));
    assert_eq!(rule("FREQ=MONTHLY;BYMONTHDAY=4294967295").by_month_day(), Some(4294967295));
}

#[test]
fn day_of_month_that_is_no_number_is_left_unset() {
    for text in [
        "FREQ=MONTHLY;BYMONTHDAY=abc",
        "FREQ=MONTHLY;BYMONTHDAY=",
        "FREQ=MONTHLY;BYMONTHDAY=-1",
        "FREQ=MONTHLY;BYMONTHDAY=1,15",
        "FREQ=MONTHLY;BYMONTHDAY=4294967296",
        "FREQ=MONTHLY;BYMONTHDAY=99999999999999999999999",
    ] {
        let r = rule(text);
        assert_eq!(r.frequency(), Frequency::Monthly);
        assert_eq!(r.by_month_day(), None);
    }
}

#[test]
fn week_start_and_count_are_allowed_and_not_kept() {
    let r = rule("FREQ=WEEKLY;WKST=SU;COUNT=10;BYDAY=FR");
    assert_eq!(r.frequency(), Frequency::Weekly);
    assert_eq!(r.count(), None);
    assert_eq!(r.by_day().map(|d| d.as_str()), Some("FR"));
}

#[test]
fn day_token_is_kept_as_written() {
    assert_eq!(rule("FREQ=WEEKLY;BYDAY=MO,WE,FR").by_day().map(|d| d.as_str()), Some("MO,WE,FR"));
    assert_eq!(rule("FREQ=MONTHLY;BYDAY=-1SU").by_day().map(|d| d.as_str()), Some("-1SU"));
    assert_eq!(rule("FREQ=MONTHLY;BYDAY=a=b").by_day().map(|d| d.as_str()), Some("a=b"));
}

#[test]
fn first_of_two_parts_with_one_key_counts() {
    let r = rule("FREQ=DAILY;FREQ=WEEKLY;BYDAY=MO;BYDAY=TU");
    assert_eq!(r.frequency(), Frequency::Daily);
    assert_eq!(r.by_day().map(|d| d.as_str()), Some("MO"));
}

#[test]
fn end_that_is_no_timestamp_is_no_rule() {
    assert!(parse_recurring_event("FREQ=DAILY;UNTIL=tomorrow").is_none());
    assert!(parse_recurring_event("FREQ=DAILY;UNTIL=20251301T000000Z").is_none());
    assert!(parse_recurring_event("FREQ=DAILY;UNTIL=2025").is_none());
    assert!(parse_recurring_event("FREQ=DAILY;UNTIL=").is_none());
}

#[test]
fn end_in_each_form() {
    let midnight = Some(Timestamp::new(2025, 6, 30, 0, 0, 0).unwrap());
    let noon = Some(Timestamp::new(2025, 6, 30, 12, 0, 0).unwrap());
    assert_eq!(rule("FREQ=DAILY;UNTIL=20250630").until(), midnight);
    assert_eq!(rule("FREQ=DAILY;UNTIL=20250630T120000").until(), noon);
    assert_eq!(rule("FREQ=DAILY;UNTIL=20250630T120000Z").until(), noon);
    assert_eq!(rule("FREQ=DAILY;UNTIL=20250630120000").until(), noon);
}

#[test]
fn built_rule_gives_back_its_parts() {
    let until = Timestamp::new(2030, 1, 1, 0, 0, 0).unwrap();
    let r = RecurringEvent::new(Frequency::Yearly, Some(until), Some("SA".to_string()), Some(3));
    assert_eq!(r.frequency(), Frequency::Yearly);
    assert_eq!(r.until(), Some(until));
    assert_eq!(r.by_day().map(|d| d.as_str()), Some("SA"));
    assert_eq!(r.by_month_day(), Some(3));
    assert_eq!(r.count(), None);
}
