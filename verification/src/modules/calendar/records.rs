//! Reading appointments from the records that a calendar server hands out.

use crate::modules::calendar::appointment::{
    appointment_views, get_appointments_on_date, occurring_on, Appointment, AppointmentView,
};
use crate::modules::calendar::recurrence::{
    parse_recurring_event, rule_of, RecurrenceView, RecurringEvent,
};
use crate::modules::calendar::timestamp::{
    parse_timestamp, timestamp_of, CivilTime, ParseError, Timestamp,
};
use crate::text::same_text;
use vstd::prelude::*;

verus! {

/// One property of an event: a name such as `SUMMARY` and its value.
#[derive(Debug, Clone)]
pub struct Property {
    pub name: String,
    pub value: String,
}

/// An event as the calendar server hands it out.
#[derive(Debug, Clone)]
pub struct EventRecord {
    /// The name of the calendar that holds the event.
    pub calendar: String,
    pub properties: Vec<Property>,
}

/// Why the appointments could not be had.
#[derive(Debug, Clone, Copy, PartialEq, Eq, Structural)]
pub enum CalendarError {
    /// The calendar server gave no events.
    FetchFailed,
    /// The start of an event is no timestamp.
    MalformedTimestamp(ParseError),
}

/// A property as plain values.
pub struct PropertyView {
    pub name: Seq<char>,
    pub value: Seq<char>,
}

/// An event record as plain values.
pub struct EventRecordView {
    pub calendar: Seq<char>,
    pub properties: Seq<PropertyView>,
}

impl View for Property {
    type V = PropertyView;

    open spec fn view(&self) -> PropertyView {
        PropertyView { name: self.name@, value: self.value@ }
    }
}

impl View for EventRecord {
    type V = EventRecordView;

    open spec fn view(&self) -> EventRecordView {
        EventRecordView {
            calendar: self.calendar@,
            properties: self.properties@.map_values(|p: Property| p@),
        }
    }
}

/// The value of the last of `properties` with the name `name`.
pub open spec fn last_value(properties: Seq<PropertyView>, name: Seq<char>) -> Option<Seq<char>>
    decreases properties.len(),
{
    if properties.len() == 0 {
        None
    } else if properties.last().name == name {
        Some(properties.last().value)
    } else {
        last_value(properties.drop_last(), name)
    }
}

/// What is wrong with the first `DTSTART` among `properties` that is no
/// timestamp, if there is one.
pub open spec fn start_error(properties: Seq<PropertyView>) -> Option<ParseError>
    decreases properties.len(),
{
    if properties.len() == 0 {
        None
    } else {
        match start_error(properties.drop_last()) {
            Some(e) => Some(e),
            None => if properties.last().name == "DTSTART"@ {
                match timestamp_of(properties.last().value) {
                    Err(e) => Some(e),
                    Ok(_) => None,
                }
            } else {
                None
            },
        }
    }
}

/// The recurrence of an event: none without an `RRULE`, with an empty one,
/// or with one that is no rule.
pub open spec fn recurrence_of(properties: Seq<PropertyView>) -> Option<RecurrenceView> {
    match last_value(properties, "RRULE"@) {
        Some(rule) => if rule.len() == 0 {
            None
        } else {
            rule_of(rule)
        },
        None => None,
    }
}

/// The appointment that an event record stands for.
///
/// The last `SUMMARY`, `DTSTART` and `RRULE` of the record count. A record
/// without a summary or without a start stands for no appointment. A start
/// that is no timestamp is an error.
pub open spec fn appointment_of(record: EventRecordView) -> Result<
    Option<AppointmentView>,
    ParseError,
> {
    match start_error(record.properties) {
        Some(e) => Err(e),
        None => match (
            last_value(record.properties, "SUMMARY"@),
            last_value(record.properties, "DTSTART"@),
        ) {
            (Some(summary), Some(start)) => match timestamp_of(start) {
                Ok(date) => Ok(
                    Some(
                        AppointmentView {
                            calendar: record.calendar,
                            date,
                            summary,
                            repeat_rule: recurrence_of(record.properties),
                        },
                    ),
                ),
                Err(e) => Err(e),
            },
            _ => Ok(None),
        },
    }
}

/// The records as plain values.
pub open spec fn record_views(records: Seq<EventRecord>) -> Seq<EventRecordView> {
    records.map_values(|r: EventRecord| r@)
}

/// The appointments that a list of records stands for, in the order of the
/// records, or the error of the first record that has one.
pub open spec fn appointments_of(records: Seq<EventRecordView>) -> Result<
    Seq<AppointmentView>,
    CalendarError,
>
    decreases records.len(),
{
    if records.len() == 0 {
        Ok(Seq::empty())
    } else {
        match appointments_of(records.drop_last()) {
            Err(e) => Err(e),
            Ok(before) => match appointment_of(records.last()) {
                Err(e) => Err(CalendarError::MalformedTimestamp(e)),
                Ok(Some(appointment)) => Ok(before.push(appointment)),
                Ok(None) => Ok(before),
            },
        }
    }
}

/// Reads the appointment of one event record.
pub fn read_event(record: &EventRecord) -> (read: Result<Option<Appointment>, ParseError>)
    ensures
        match read {
            Ok(Some(a)) => appointment_of(record@) == Ok::<Option<AppointmentView>, ParseError>(
                Some(a@),
            ),
            Ok(None) => appointment_of(record@) == Ok::<Option<AppointmentView>, ParseError>(None),
            Err(e) => appointment_of(record@) == Err::<Option<AppointmentView>, ParseError>(e),
        },
{
    let ghost all = record@.properties;
    let mut summary: Option<String> = None;
    let mut date: Option<Timestamp> = None;
    let mut repeat: Option<String> = None;
    let mut i: usize = 0;
    while i < record.properties.len()
        invariant
            i <= record.properties.len(),
            all == record@.properties,
            all.len() == record.properties.len(),
            start_error(all.take(i as int)) is None,
            match summary {
                Some(s) => last_value(all.take(i as int), "SUMMARY"@) == Some(s@),
                None => last_value(all.take(i as int), "SUMMARY"@) is None,
            },
            match date {
                Some(d) => last_value(all.take(i as int), "DTSTART"@) matches Some(start)
                    && timestamp_of(start) == Ok::<CivilTime, ParseError>(d@),
                None => last_value(all.take(i as int), "DTSTART"@) is None,
            },
            match repeat {
                Some(r) => last_value(all.take(i as int), "RRULE"@) == Some(r@),
                None => last_value(all.take(i as int), "RRULE"@) is None,
            },
        decreases record.properties.len() - i,
    {
        let property: &Property = &record.properties[i];
        proof {
            assert(all.take(i + 1).drop_last() =~= all.take(i as int));
            assert(all.take(i + 1).last() == property@);
        }
        if same_text(property.name.as_str(), "SUMMARY") {
            summary = Some(property.value.clone());
        }
        if same_text(property.name.as_str(), "DTSTART") {
            match parse_timestamp(property.value.as_str()) {
                Ok(t) => {
                    date = Some(t);
                },
                Err(e) => {
                    proof {
                        lemma_start_error_stays(all, i + 1);
                    }
                    return Err(e);
                },
            }
        }
        if same_text(property.name.as_str(), "RRULE") {
            repeat = Some(property.value.clone());
        }
        i += 1;
    }
    assert(all.take(all.len() as int) =~= all);
    match (summary, date) {
        (Some(summary), Some(date)) => {
            let repeat_rule: Option<RecurringEvent> = match repeat {
                Some(rule) => if rule.as_str().unicode_len() == 0 {
                    None
                } else {
                    parse_recurring_event(rule.as_str())
                },
                None => None,
            };
            Ok(Some(Appointment { calendar: record.calendar.clone(), date, summary, repeat_rule }))
        },
        _ => Ok(None),
    }
}

/// An error among the first properties is the error of the whole list.
proof fn lemma_start_error_stays(properties: Seq<PropertyView>, count: int)
    requires
        0 <= count <= properties.len(),
        start_error(properties.take(count)) is Some,
    ensures
        start_error(properties) == start_error(properties.take(count)),
    decreases properties.len() - count,
{
    if count < properties.len() {
        assert(properties.take(count + 1).drop_last() =~= properties.take(count));
        lemma_start_error_stays(properties, count + 1);
    } else {
        assert(properties.take(count) =~= properties);
    }
}

/// Reads the appointments of all the events that the calendars hold.
pub fn get_appointments(records: &Vec<EventRecord>) -> (read: Result<
    Vec<Appointment>,
    CalendarError,
>)
    ensures
        match read {
            Ok(appointments) => appointments_of(record_views(records@)) == Ok::<
                Seq<AppointmentView>,
                CalendarError,
            >(appointment_views(appointments@)),
            Err(e) => appointments_of(record_views(records@)) == Err::<
                Seq<AppointmentView>,
                CalendarError,
            >(e),
        },
{
    let ghost all = record_views(records@);
    let mut appointments: Vec<Appointment> = Vec::new();
    let mut i: usize = 0;
    assert(appointment_views(appointments@) =~= Seq::empty());
    while i < records.len()
        invariant
            i <= records.len(),
            all == record_views(records@),
            appointments_of(all.take(i as int)) == Ok::<Seq<AppointmentView>, CalendarError>(
                appointment_views(appointments@),
            ),
        decreases records.len() - i,
    {
        proof {
            assert(all.take(i + 1).drop_last() =~= all.take(i as int));
            assert(all.take(i + 1).last() == records@[i as int]@);
        }
        match read_event(&records[i]) {
            Ok(Some(appointment)) => {
                let ghost before = appointment_views(appointments@);
                appointments.push(appointment);
                assert(appointment_views(appointments@) =~= before.push(appointment@));
            },
            Ok(None) => {},
            Err(e) => {
                proof {
                    lemma_first_error_stays(all, i + 1);
                }
                return Err(CalendarError::MalformedTimestamp(e));
            },
        }
        i += 1;
    }
    assert(all.take(all.len() as int) =~= all);
    Ok(appointments)
}

/// An error among the first records is the error of the whole list.
proof fn lemma_first_error_stays(records: Seq<EventRecordView>, count: int)
    requires
        0 <= count <= records.len(),
        appointments_of(records.take(count)) is Err,
    ensures
        appointments_of(records) == appointments_of(records.take(count)),
    decreases records.len() - count,
{
    if count < records.len() {
        assert(records.take(count + 1).drop_last() =~= records.take(count));
        lemma_first_error_stays(records, count + 1);
    } else {
        assert(records.take(count) =~= records);
    }
}

/// Reads the appointments of all the events that the calendars hold.
pub fn get_all_appointments(records: &Vec<EventRecord>) -> (read: Result<
    Vec<Appointment>,
    CalendarError,
>)
    ensures
        match read {
            Ok(appointments) => appointments_of(record_views(records@)) == Ok::<
                Seq<AppointmentView>,
                CalendarError,
            >(appointment_views(appointments@)),
            Err(e) => appointments_of(record_views(records@)) == Err::<
                Seq<AppointmentView>,
                CalendarError,
            >(e),
        },
{
    get_appointments(records)
}

/// Reads the appointments that the calendars hold and keeps those that
/// occur on the day of `date`.
pub fn get_all_appointments_on_date(records: &Vec<EventRecord>, date: Timestamp) -> (read: Result<
    Vec<Appointment>,
    CalendarError,
>)
    ensures
        match read {
            Ok(kept) => appointments_of(record_views(records@)) matches Ok(all)
                && appointment_views(kept@) == occurring_on(all, date@),
            Err(e) => appointments_of(record_views(records@)) == Err::<
                Seq<AppointmentView>,
                CalendarError,
            >(e),
        },
{
    match get_appointments(records) {
        Ok(appointments) => Ok(get_appointments_on_date(appointments, date)),
        Err(e) => Err(e),
    }
}

} // verus!
