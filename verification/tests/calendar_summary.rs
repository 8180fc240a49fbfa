use waifu_bot::modules::calendar::appointment::Appointment;
use waifu_bot::modules::calendar::records::CalendarError;
use waifu_bot::modules::calendar::recurrence::{Frequency, RecurringEvent};
use waifu_bot::modules::calendar::summary::{
    convert_24_to_12_hour, parse_query, summarize_day, twelve_hour,
};
use waifu_bot::modules::calendar::timestamp::Timestamp;

fn at(year: i32, month: u32, day: u32, hour: u32, minute: u32) -> Timestamp {
    Timestamp::new(year, month, day, hour, minute, 0).unwrap()
}

fn appointment(date: Timestamp, summary: &str, rule: Option<RecurringEvent>) -> Appointment {
    Appointment {
        calendar: "home".to_string(),
        date,
        summary: summary.to_string(),
        repeat_rule: rule,
    }
}

#[test]
fn twelve_hour_clock() {
    assert_eq!(convert_24_to_12_hour("00:00"), "12:00 AM");
    assert_eq!(convert_24_to_12_hour("00:05"), "12:05 AM");
    assert_eq!(convert_24_to_12_hour("09:07"), "09:07 AM");
    assert_eq!(convert_24_to_12_hour("11:59"), "11:59 AM");
    assert_eq!(convert_24_to_12_hour("12:00"), "12:00 PM");
    assert_eq!(convert_24_to_12_hour("12:30"), "12:30 PM");
    assert_eq!(convert_24_to_12_hour("13:05"), "01:05 PM");
    assert_eq!(convert_24_to_12_hour("17:45"), "05:45 PM");
    assert_eq!(convert_24_to_12_hour("23:59"), "11:59 PM");
}

#[test]
fn twelve_hour_clock_of_short_and_long_numbers() {
    assert_eq!(convert_24_to_12_hour("7:5"), "07:05 AM");
    assert_eq!(convert_24_to_12_hour("7:5:59"), "07:05 AM");
    assert_eq!(convert_24_to_12_hour("24:00"), "12:00 PM");
    assert_eq!(convert_24_to_12_hour("10:123"), "10:123 AM");
}

#[test]
fn twelve_hour_clock_agrees_with_formatting() {
    for hour in 0..24u32 {
        for minute in 0..60u32 {
            let half = if hour < 12 { "AM" } else { "PM" };
            let shown = if hour % 12 == 0 { 12 } else { hour % 12 };
            let expected = format!("{:02}:{:02} {}", shown, minute, half);
            assert_eq!(twelve_hour(hour, minute), expected);
            assert_eq!(convert_24_to_12_hour(&format!("{:02}:{:02}", hour, minute)), expected);
        }
    }
}

#[test]
fn day_without_appointments() {
    let text = summarize_day(&Vec::new(), at(2024, 3, 10, 0, 0), "Aiko", at(2024, 3, 10, 17, 5));
    assert_eq!(
        text,
        "Aiko can use the info provided in the || \n current time: 05:05 PM \n appointments date 2024-03-10 \n user appointments today: \n No appointments today \n "
    );
}

#[test]
fn day_on_which_nothing_occurs() {
    let all = vec![
        appointment(at(2024, 3, 9, 9, 0), "yesterday", None),
        appointment(at(2024, 3, 11, 9, 0), "tomorrow", None),
        appointment(
            at(2024, 3, 4, 9, 0),
            "over",
            Some(RecurringEvent::new(Frequency::Daily, Some(at(2024, 3, 5, 0, 0)), None, None)),
        ),
    ];
    let text = summarize_day(&all, at(2024, 3, 10, 0, 0), "Aiko", at(2024, 3, 10, 8, 30));
    assert_eq!(
        text,
        "Aiko can use the info provided in the || \n current time: 08:30 AM \n appointments date 2024-03-10 \n user appointments today: \n No appointments today \n "
    );
}

#[test]
fn day_with_one_appointment() {
    let all = vec![appointment(at(2024, 3, 10, 14, 30), "dentist", None)];
    let text = summarize_day(&all, at(2024, 3, 10, 0, 0), "Aiko", at(2024, 3, 10, 0, 0));
    assert_eq!(
        text,
        "Aiko can use the info provided in the || \n current time: 12:00 AM \n appointments date 2024-03-10 \n user appointments today: \n dentist at 02:30 PM \n "
    );
}

#[test]
fn day_with_several_appointments() {
    let all = vec![
        appointment(at(2024, 3, 10, 9, 0), "breakfast", None),
        appointment(at(2024, 3, 12, 9, 0), "other day", None),
        appointment(
            at(2020, 3, 10, 12, 15),
            "birthday",
            Some(RecurringEvent::new(Frequency::Yearly, None, None, None)),
        ),
        appointment(at(2024, 3, 10, 23, 59), "sleep", None),
    ];
    let text = summarize_day(&all, at(2024, 3, 10, 0, 0), "Aiko", at(2024, 3, 10, 7, 7));
    assert_eq!(
        text,
        "Aiko can use the info provided in the || \n current time: 07:07 AM \n appointments date 2024-03-10 \n user appointments today: \n breakfast at 09:00 AM\nbirthday at 12:15 PM\nsleep at 11:59 PM \n "
    );
}

#[test]
fn date_is_padded_with_zeros() {
    let text = summarize_day(&Vec::new(), at(7, 1, 2, 0, 0), "", at(2024, 3, 10, 12, 0));
    assert_eq!(
        text,
        " can use the info provided in the || \n current time: 12:00 PM \n appointments date 0007-01-02 \n user appointments today: \n No appointments today \n "
    );
}

#[test]
fn special_characters_are_left_as_they_are() {
    let all = vec![appointment(at(2024, 3, 10, 9, 0), "a|b \n \"c\" é", None)];
    let text = summarize_day(&all, at(2024, 3, 10, 0, 0), "A|i", at(2024, 3, 10, 9, 0));
    assert!(text.starts_with("A|i can use"));
    assert!(text.contains("a|b \n \"c\" é at 09:00 AM"));
}

#[test]
fn query_gets_the_summary_behind_it() {
    let all = vec![appointment(at(2024, 3, 10, 14, 30), "dentist", None)];
    let day = at(2024, 3, 10, 0, 0);
    let now = at(2024, 3, 10, 8, 0);
    let summary = summarize_day(&all, day, "Aiko", now);
    let text = parse_query("what is on my calendar?".to_string(), &Ok(all), day, "Aiko", now);
    assert_eq!(text, format!("what is on my calendar? \n {}", summary));
    assert!(text.ends_with("dentist at 02:30 PM \n "));
}

#[test]
fn query_stays_as_it_is_without_appointments_to_tell() {
    let day = at(2024, 3, 10, 0, 0);
    let text = parse_query("hello".to_string(), &Err(CalendarError::FetchFailed), day, "Aiko", day);
    assert_eq!(text, "hello");
}
