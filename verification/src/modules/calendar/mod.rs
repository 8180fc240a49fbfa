//! Appointments read from calendar records, and the rules that decide on which
//! days they occur.

pub mod appointment;
pub mod civil;
pub mod records;
pub mod recurrence;
pub mod summary;
pub mod timestamp;

pub use appointment::{get_appointments_on_date, is_appointment_on_date, Appointment};
pub use records::{
    get_all_appointments, get_all_appointments_on_date, get_appointments, CalendarError,
    EventRecord, Property,
};
pub use recurrence::{parse_recurring_event, Frequency, RecurringEvent, RepeatRule};
pub use summary::{convert_24_to_12_hour, parse_query, summarize_day};
pub use timestamp::{parse_timestamp, ParseError, Timestamp};
