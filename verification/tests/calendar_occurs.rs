use waifu_bot::modules::calendar::appointment::{
    get_appointments_on_date, is_appointment_on_date, Appointment,
};
use waifu_bot::modules::calendar::recurrence::{Frequency, RecurringEvent};
use waifu_bot::modules::calendar::timestamp::Timestamp;

fn day(year: i32, month: u32, day: u32) -> Timestamp {
    Timestamp::new(year, month, day, 0, 0, 0).unwrap()
}

fn appointment(date: Timestamp, summary: &str, rule: Option<RecurringEvent>) -> Appointment {
    Appointment {
        calendar: "home".to_string(),
        date,
        summary: summary.to_string(),
        repeat_rule: rule,
    }
}

fn repeating(frequency: Frequency, until: Option<Timestamp>) -> Option<RecurringEvent> {
    Some(RecurringEvent::new(frequency, until, None, None))
}

fn next_day(t: Timestamp) -> Timestamp {
    let mut d = t.day() + 1;
    let mut m = t.month();
    let mut y = t.year();
    if Timestamp::new(y, m, d, 0, 0, 0).is_none() {
        d = 1;
        m += 1;
        if m > 12 {
            m = 1;
            y += 1;
        }
    }
    Timestamp::new(y, m, d, 0, 0, 0).unwrap()
}

#[test]
fn single_appointment_occurs_on_its_day_only() {
    let a = appointment(Timestamp::new(2024, 3, 10, 9, 0, 0).unwrap(), "dentist", None);
    assert!(is_appointment_on_date(&a, day(2024, 3, 10)));
    assert!(is_appointment_on_date(&a, Timestamp::new(2024, 3, 10, 23, 59, 59).unwrap()));
    assert!(!is_appointment_on_date(&a, day(2024, 3, 9)));
    assert!(!is_appointment_on_date(&a, day(2024, 3, 11)));
    assert!(!is_appointment_on_date(&a, day(2023, 3, 10)));
    assert!(!is_appointment_on_date(&a, day(2025, 3, 10)));
    assert!(!is_appointment_on_date(&a, day(2024, 4, 10)));
    let mut target = day(2024, 1, 1);
    let mut hits = 0;
    for _ in 0..366 {
        if is_appointment_on_date(&a, target) {
            hits += 1;
        }
        target = next_day(target);
    }
    assert_eq!(hits, 1);
}

#[test]
fn yearly_appointment() {
    let a = appointment(day(2020, 12, 25), "christmas", repeating(Frequency::Yearly, None));
    assert!(is_appointment_on_date(&a, day(2030, 12, 25)));
    assert!(!is_appointment_on_date(&a, day(2030, 12, 24)));
    assert!(!is_appointment_on_date(&a, day(2030, 1, 25)));
    assert!(is_appointment_on_date(&a, day(2020, 12, 25)));
    assert!(is_appointment_on_date(&a, day(1999, 12, 25)));
}

#[test]
fn monthly_appointment() {
    let a = appointment(day(2024, 1, 31), "rent", repeating(Frequency::Monthly, None));
    assert!(is_appointment_on_date(&a, day(2024, 3, 31)));
    assert!(is_appointment_on_date(&a, day(2025, 7, 31)));
    assert!(!is_appointment_on_date(&a, day(2024, 3, 30)));
    assert!(!is_appointment_on_date(&a, day(2024, 2, 29)));
}

#[test]
fn weekly_appointment_on_mondays() {
    let anchor = day(2024, 1, 1);
    assert_eq!(anchor.weekday(), waifu_bot::modules::calendar::civil::Weekday::Monday);
    let a = appointment(anchor, "standup", repeating(Frequency::Weekly, None));
    let mut target = anchor;
    for offset in 0..800 {
        assert_eq!(is_appointment_on_date(&a, target), offset % 7 == 0);
        target = next_day(target);
    }
}

#[test]
fn daily_appointment_occurs_every_day() {
    let a = appointment(day(2024, 1, 1), "walk", repeating(Frequency::Daily, None));
    let mut target = day(2023, 6, 1);
    for _ in 0..800 {
        assert!(is_appointment_on_date(&a, target));
        target = next_day(target);
    }
    assert!(is_appointment_on_date(&a, day(0, 1, 1)));
    assert!(is_appointment_on_date(&a, day(9999, 12, 31)));
}

#[test]
fn end_of_rule_decides_alone() {
    let until = Timestamp::new(2025, 1, 1, 0, 0, 0).unwrap();
    for frequency in [Frequency::Yearly, Frequency::Monthly, Frequency::Weekly, Frequency::Daily] {
        let a = appointment(day(2024, 1, 1), "course", repeating(frequency, Some(until)));
        // before the end: every day, whatever the frequency
        assert!(is_appointment_on_date(&a, day(2024, 1, 1)));
        assert!(is_appointment_on_date(&a, day(2024, 5, 17)));
        assert!(is_appointment_on_date(&a, day(2023, 5, 17)));
        assert!(is_appointment_on_date(&a, Timestamp::new(2024, 12, 31, 23, 59, 59).unwrap()));
        // at the end and after it: never
        assert!(!is_appointment_on_date(&a, until));
        assert!(!is_appointment_on_date(&a, day(2025, 1, 6)));
        assert!(!is_appointment_on_date(&a, day(2026, 1, 1)));
    }
}

#[test]
fn keeps_the_appointments_of_the_day_in_order() {
    let all = vec![
        appointment(day(2024, 3, 10), "a", None),
        appointment(day(2024, 3, 11), "b", None),
        appointment(day(2020, 3, 10), "c", repeating(Frequency::Yearly, None)),
        appointment(day(2024, 3, 3), "d", repeating(Frequency::Weekly, None)),
        appointment(day(2024, 3, 4), "e", repeating(Frequency::Weekly, None)),
        appointment(day(2024, 3, 10), "f", None),
    ];
    let kept = get_appointments_on_date(all, day(2024, 3, 10));
    let names: Vec<&str> = kept.iter().map(|a| a.summary.as_str()).collect();
    assert_eq!(names, vec!["a", "c", "d", "f"]);
    assert!(get_appointments_on_date(Vec::new(), day(2024, 3, 10)).is_empty());
}
