//! The text that tells a chat partner what is on the calendar today.

use crate::modules::calendar::appointment::{
    appointment_views, is_appointment_on_date, occurring_on, occurs_on, Appointment,
    AppointmentView,
};
use crate::modules::calendar::records::CalendarError;
use crate::modules::calendar::timestamp::{CivilTime, Timestamp};
use crate::text::{
    chars_of, padded_text, push_padded, read_unsigned, split, split_chars, unsigned_of, views_of,
};
use vstd::prelude::*;
use vstd::string::StringExecFns;

verus! {

/// The hour of the twelve-hour clock for an hour of the day.
pub open spec fn hour_of_twelve(hour: nat) -> nat {
    if hour % 12 == 0 {
        12
    } else {
        hour % 12
    }
}

/// A time of day on the twelve-hour clock: `09:05 AM`, `12:00 PM`.
pub open spec fn twelve_hour_text(hour: nat, minute: nat) -> Seq<char> {
    padded_text(hour_of_twelve(hour), 2) + seq![':'] + padded_text(minute, 2) + seq![' '] + (
    if hour < 12 {
        seq!['A', 'M']
    } else {
        seq!['P', 'M']
    })
}

/// A day as `2024-03-10`.
pub open spec fn date_text(day: CivilTime) -> Seq<char> {
    padded_text(day.year as nat, 4) + seq!['-'] + padded_text(day.month as nat, 2) + seq!['-']
        + padded_text(day.day as nat, 2)
}

/// The time of day `hour`:`minute` on the twelve-hour clock.
pub fn twelve_hour(hour: u32, minute: u32) -> (text: String)
    ensures
        text@ == twelve_hour_text(hour as nat, minute as nat),
{
    let mut text: String = String::new();
    let hour_12: u32 = if hour % 12 == 0 {
        12
    } else {
        hour % 12
    };
    push_padded(&mut text, hour_12 as u64, 2);
    text.push(':');
    push_padded(&mut text, minute as u64, 2);
    text.push(' ');
    if hour < 12 {
        text.push('A');
    } else {
        text.push('P');
    }
    text.push('M');
    assert(text@ =~= twelve_hour_text(hour as nat, minute as nat));
    text
}

/// Whether `text` is a time of day as `hours:minutes`: cut at its colons it
/// has at least two pieces, and the first two are numbers.
pub open spec fn is_clock_text(text: Seq<char>) -> bool {
    let pieces = split(text, ':');
    pieces.len() >= 2 && unsigned_of(pieces[0]) is Some && unsigned_of(pieces[1]) is Some
}

/// Turns a time of day of the 24-hour clock, such as `17:05`, into one of
/// the twelve-hour clock, `05:05 PM`.
pub fn convert_24_to_12_hour(time_str: &str) -> (text: String)
    requires
        is_clock_text(time_str@),
    ensures
        text@ == twelve_hour_text(
            unsigned_of(split(time_str@, ':')[0]).unwrap() as nat,
            unsigned_of(split(time_str@, ':')[1]).unwrap() as nat,
        ),
{
    let chars: Vec<char> = chars_of(time_str);
    let parts: Vec<Vec<char>> = split_chars(&chars, ':');
    assert(views_of(parts@)[0] == parts@[0]@);
    assert(views_of(parts@)[1] == parts@[1]@);
    let hour: Option<u32> = read_unsigned(&parts[0]);
    let minute: Option<u32> = read_unsigned(&parts[1]);
    twelve_hour(hour.unwrap(), minute.unwrap())
}

/// The line that tells of one appointment: its summary and its time of day.
pub open spec fn appointment_line(appointment: AppointmentView) -> Seq<char> {
    appointment.summary + " at "@ + twelve_hour_text(
        appointment.date.hour as nat,
        appointment.date.minute as nat,
    )
}

/// The lines of the appointments, one below the other.
pub open spec fn appointment_lines(appointments: Seq<AppointmentView>) -> Seq<char>
    decreases appointments.len(),
{
    if appointments.len() == 0 {
        Seq::empty()
    } else if appointments.len() == 1 {
        appointment_line(appointments[0])
    } else {
        appointment_lines(appointments.drop_last()) + "\n"@ + appointment_line(
            appointments.last(),
        )
    }
}

/// What is said of the appointments of a day: their lines, or that there
/// are none.
pub open spec fn appointments_text(appointments: Seq<AppointmentView>) -> Seq<char> {
    if appointments.len() == 0 {
        "No appointments today"@
    } else {
        appointment_lines(appointments)
    }
}

/// The text that tells `character` the time and the appointments of the day
/// of `target`.
pub open spec fn day_summary(
    appointments: Seq<AppointmentView>,
    target: CivilTime,
    character: Seq<char>,
    now: CivilTime,
) -> Seq<char> {
    character + " can use the info provided in the || \n current time: "@ + twelve_hour_text(
        now.hour as nat,
        now.minute as nat,
    ) + " \n appointments date "@ + date_text(target) + " \n user appointments today: \n "@
        + appointments_text(occurring_on(appointments, target)) + " \n "@
}

/// Writes the lines of the appointments that occur on the day of
/// `target_day`, or that there are none.
fn push_appointments(text: &mut String, appointments: &Vec<Appointment>, target_day: Timestamp)
    ensures
        final(text)@ == old(text)@ + appointments_text(
            occurring_on(appointment_views(appointments@), target_day@),
        ),
{
    let ghost all = appointment_views(appointments@);
    let ghost start = text@;
    let mut found: bool = false;
    let mut i: usize = 0;
    assert(start + appointment_lines(occurring_on(all.take(0), target_day@)) =~= start);
    while i < appointments.len()
        invariant
            i <= appointments.len(),
            all == appointment_views(appointments@),
            found == (occurring_on(all.take(i as int), target_day@).len() > 0),
            text@ == start + appointment_lines(occurring_on(all.take(i as int), target_day@)),
        decreases appointments.len() - i,
    {
        let appointment: &Appointment = &appointments[i];
        proof {
            assert(all.take(i + 1).drop_last() =~= all.take(i as int));
            assert(all.take(i + 1).last() == appointment@);
        }
        if is_appointment_on_date(appointment, target_day) {
            let ghost before = occurring_on(all.take(i as int), target_day@);
            let ghost lines = text@;
            if found {
                text.append("\n");
            }
            text.append(appointment.summary.as_str());
            text.append(" at ");
            let time: String = twelve_hour(appointment.date.hour(), appointment.date.minute());
            text.append(time.as_str());
            proof {
                let after = before.push(appointment@);
                assert(after.drop_last() =~= before);
                assert(text@ =~= start + appointment_lines(after));
            }
            found = true;
        }
        i += 1;
    }
    assert(all.take(all.len() as int) =~= all);
    if !found {
        text.append("No appointments today");
    }
}

/// Tells `character_name` the time of `current_time` and the appointments
/// that occur on the day of `target_day`.
pub fn summarize_day(
    appointments: &Vec<Appointment>,
    target_day: Timestamp,
    character_name: &str,
    current_time: Timestamp,
) -> (text: String)
    ensures
        text@ == day_summary(
            appointment_views(appointments@),
            target_day@,
            character_name@,
            current_time@,
        ),
{
    let mut text: String = String::new();
    text.append(character_name);
    text.append(" can use the info provided in the || \n current time: ");
    let time: String = twelve_hour(current_time.hour(), current_time.minute());
    text.append(time.as_str());
    text.append(" \n appointments date ");
    push_padded(&mut text, target_day.year() as u64, 4);
    text.push('-');
    push_padded(&mut text, target_day.month() as u64, 2);
    text.push('-');
    push_padded(&mut text, target_day.day() as u64, 2);
    text.append(" \n user appointments today: \n ");
    push_appointments(&mut text, appointments, target_day);
    text.append(" \n ");
    assert(text@ =~= day_summary(
        appointment_views(appointments@),
        target_day@,
        character_name@,
        current_time@,
    ));
    text
}

/// What becomes of a query when the calendar has been asked.
pub open spec fn query_with_day(
    query: Seq<char>,
    fetched: Result<Seq<AppointmentView>, CalendarError>,
    target: CivilTime,
    character: Seq<char>,
    now: CivilTime,
) -> Seq<char> {
    match fetched {
        Ok(appointments) => query + " \n "@ + day_summary(appointments, target, character, now),
        Err(_) => query,
    }
}

/// Puts the summary of the day of `target_day` behind `query`. Where the
/// appointments could not be had, the query is handed back as it came.
pub fn parse_query(
    query: String,
    fetched: &Result<Vec<Appointment>, CalendarError>,
    target_day: Timestamp,
    character_name: &str,
    current_time: Timestamp,
) -> (text: String)
    ensures
        text@ == query_with_day(
            query@,
            match *fetched {
                Ok(appointments) => Ok(appointment_views(appointments@)),
                Err(e) => Err(e),
            },
            target_day@,
            character_name@,
            current_time@,
        ),
{
    match fetched {
        Ok(appointments) => {
            let mut text: String = query;
            let summary: String = summarize_day(
                appointments,
                target_day,
                character_name,
                current_time,
            );
            text.append(" \n ");
            text.append(summary.as_str());
            text
        },
        Err(_) => query,
    }
}

/// Where no appointment occurs on the day, the summary says so: the
/// appointments' place in it holds `No appointments today`.
pub proof fn lemma_empty_day_is_told(
    appointments: Seq<AppointmentView>,
    target: CivilTime,
    character: Seq<char>,
    now: CivilTime,
)
    requires
        forall|i: int| 0 <= i < appointments.len() ==> !occurs_on(#[trigger] appointments[i], target),
    ensures
        day_summary(appointments, target, character, now) == character
            + " can use the info provided in the || \n current time: "@ + twelve_hour_text(
            now.hour as nat,
            now.minute as nat,
        ) + " \n appointments date "@ + date_text(target) + " \n user appointments today: \n "@
            + "No appointments today"@ + " \n "@,
{
    lemma_none_occurring(appointments, target);
}

/// Where no appointment occurs on the day, none is kept.
pub proof fn lemma_none_occurring(appointments: Seq<AppointmentView>, target: CivilTime)
    requires
        forall|i: int| 0 <= i < appointments.len() ==> !occurs_on(#[trigger] appointments[i], target),
    ensures
        occurring_on(appointments, target).len() == 0,
    decreases appointments.len(),
{
    if appointments.len() > 0 {
        lemma_none_occurring(appointments.drop_last(), target);
    }
}

} // verus!
