//! Appointments, the days on which they occur, and how they are read from
//! the records of a calendar.

use crate::modules::calendar::civil::Weekday;
use crate::modules::calendar::recurrence::{Frequency, RecurrenceView, RecurringEvent};
use crate::modules::calendar::timestamp::{CivilTime, Timestamp};
use vstd::prelude::*;

verus! {

/// An entry of a calendar.
#[derive(Debug, Clone)]
pub struct Appointment {
    /// The name of the calendar that the entry comes from.
    pub calendar: String,
    /// The start of the entry, or of its first occurrence.
    pub date: Timestamp,
    pub summary: String,
    /// How the entry repeats; `None` for an entry that occurs once.
    pub repeat_rule: Option<RecurringEvent>,
}

/// An appointment as plain values.
pub struct AppointmentView {
    pub calendar: Seq<char>,
    pub date: CivilTime,
    pub summary: Seq<char>,
    pub repeat_rule: Option<RecurrenceView>,
}

impl View for Appointment {
    type V = AppointmentView;

    open spec fn view(&self) -> AppointmentView {
        AppointmentView {
            calendar: self.calendar@,
            date: self.date@,
            summary: self.summary@,
            repeat_rule: match self.repeat_rule {
                Some(r) => Some(r@),
                None => None,
            },
        }
    }
}

/// Whether an appointment occurs on the day of `target`.
///
/// An appointment without a rule occurs on the day of its date. One whose
/// rule has an end occurs on every day for which that end is later than
/// `target`, whatever the frequency says. Any other occurs where the
/// frequency brings its date round again.
pub open spec fn occurs_on(appointment: AppointmentView, target: CivilTime) -> bool {
    match appointment.repeat_rule {
        None => appointment.date.same_day(target),
        Some(rule) => match rule.until {
            Some(until) => until.instant() > target.instant(),
            None => match rule.frequency {
                Frequency::Yearly => appointment.date.month == target.month && appointment.date.day
                    == target.day,
                Frequency::Monthly => appointment.date.day == target.day,
                Frequency::Weekly => appointment.date.weekday() == target.weekday(),
                Frequency::Daily => true,
            },
        },
    }
}

/// Tells whether `appointment` occurs on the day of `date`.
pub fn is_appointment_on_date(appointment: &Appointment, date: Timestamp) -> (occurs: bool)
    ensures
        occurs == occurs_on(appointment@, date@),
{
    match &appointment.repeat_rule {
        None => appointment.date.same_day(&date),
        Some(rule) => {
            // A rule with an end matches every day before that end: the
            // frequency is not asked.
            match rule.until() {
                Some(until) => until.is_after(&date),
                None => match rule.frequency() {
                    Frequency::Yearly => appointment.date.month() == date.month()
                        && appointment.date.day() == date.day(),
                    Frequency::Monthly => appointment.date.day() == date.day(),
                    Frequency::Weekly => appointment.date.weekday() == date.weekday(),
                    Frequency::Daily => true,
                },
            }
        },
    }
}

/// The appointments as plain values.
pub open spec fn appointment_views(appointments: Seq<Appointment>) -> Seq<AppointmentView> {
    appointments.map_values(|a: Appointment| a@)
}

/// Those of `appointments` that occur on the day of `target`, in their
/// order.
pub open spec fn occurring_on(appointments: Seq<AppointmentView>, target: CivilTime) -> Seq<
    AppointmentView,
>
    decreases appointments.len(),
{
    if appointments.len() == 0 {
        Seq::empty()
    } else {
        let before = occurring_on(appointments.drop_last(), target);
        if occurs_on(appointments.last(), target) {
            before.push(appointments.last())
        } else {
            before
        }
    }
}

/// Keeps the appointments that occur on the day of `date`.
pub fn get_appointments_on_date(appointments: Vec<Appointment>, date: Timestamp) -> (kept: Vec<
    Appointment,
>)
    ensures
        appointment_views(kept@) == occurring_on(appointment_views(appointments@), date@),
{
    let ghost all = appointment_views(appointments@);
    let mut day_appointments: Vec<Appointment> = Vec::new();
    for appointment in it: appointments
        invariant
            appointment_views(it.seq()) == all,
            appointment_views(day_appointments@) == occurring_on(all.take(it.index()), date@),
    {
        proof {
            assert(all.take(it.index() + 1).drop_last() =~= all.take(it.index()));
        }
        if is_appointment_on_date(&appointment, date) {
            let ghost before = appointment_views(day_appointments@);
            day_appointments.push(appointment);
            assert(appointment_views(day_appointments@) =~= before.push(appointment@));
        }
    }
    assert(all.take(all.len() as int) =~= all);
    day_appointments
}

/// An appointment without a rule occurs on the day of its date and on no
/// other.
pub proof fn lemma_single_appointment_occurs_on_its_day(
    appointment: AppointmentView,
    target: CivilTime,
)
    requires
        appointment.repeat_rule is None,
    ensures
        occurs_on(appointment, target) <==> appointment.date.same_day(target),
        occurs_on(appointment, appointment.date),
{
}

/// A weekly appointment occurs on the days that have the weekday of its
/// date, and on no others: one that starts on a Monday on every Monday.
/// Where the rule has an end, this holds of the days on which the end
/// decides the same.
pub proof fn lemma_weekly_appointment_keeps_its_weekday(
    appointment: AppointmentView,
    target: CivilTime,
)
    requires
        appointment.repeat_rule matches Some(rule) && rule.frequency == Frequency::Weekly && (
        rule.until matches Some(until) ==> (until.instant() > target.instant() <==> target.weekday()
            == appointment.date.weekday())),
    ensures
        occurs_on(appointment, target) <==> target.weekday() == appointment.date.weekday(),
        appointment.date.weekday() == Weekday::Monday ==> (occurs_on(appointment, target)
            <==> target.weekday() == Weekday::Monday),
{
}

/// A daily appointment occurs on every day, up to the end of its rule where
/// it has one.
pub proof fn lemma_daily_appointment_occurs_every_day(
    appointment: AppointmentView,
    target: CivilTime,
)
    requires
        appointment.repeat_rule matches Some(rule) && rule.frequency == Frequency::Daily && (
        rule.until matches Some(until) ==> until.instant() > target.instant()),
    ensures
        occurs_on(appointment, target),
{
}

} // verus!
