//! Seconds of the calendar, all of them taken as UTC, and the text forms in
//! which calendar records write them.

use crate::modules::calendar::civil::{
    day_count, day_number, is_earlier_date, is_valid_date, is_valid_time, lemma_day_number_grows,
    valid_date, weekday, weekday_of, Weekday,
};
use crate::text::{chars_of, digits_at, is_digit, number_at};
use vstd::prelude::*;

verus! {

/// A second of the calendar as the six numbers it is written with.
pub struct CivilTime {
    pub year: int,
    pub month: int,
    pub day: int,
    pub hour: int,
    pub minute: int,
    pub second: int,
}

impl CivilTime {
    /// Whether the six numbers name a second that exists.
    pub open spec fn is_valid(self) -> bool {
        is_valid_date(self.year, self.month, self.day) && is_valid_time(
            self.hour,
            self.minute,
            self.second,
        )
    }

    /// The number of seconds from the start of the year 0 to this second.
    pub open spec fn instant(self) -> int {
        day_number(self.year, self.month, self.day) * 86400 + self.hour * 3600 + self.minute * 60
            + self.second
    }

    /// Whether both seconds lie on one calendar day.
    pub open spec fn same_day(self, other: CivilTime) -> bool {
        self.year == other.year && self.month == other.month && self.day == other.day
    }

    /// The day of the week on which this second lies.
    pub open spec fn weekday(self) -> Weekday {
        weekday_of(self.year, self.month, self.day)
    }

    /// The seconds of the day that have passed at this second.
    pub open spec fn second_of_day(self) -> int {
        self.hour * 3600 + self.minute * 60 + self.second
    }

    /// Whether this second comes before `other` by the calendar and the
    /// clock.
    pub open spec fn comes_before(self, other: CivilTime) -> bool {
        ||| is_earlier_date(self.year, self.month, self.day, other.year, other.month, other.day)
        ||| self.same_day(other) && self.second_of_day() < other.second_of_day()
    }

    /// Among seconds that exist, the earlier one by calendar and clock is
    /// the one with the smaller count of seconds, and two with one count are
    /// the same second.
    pub proof fn lemma_instant_follows_the_calendar(self, other: CivilTime)
        requires
            self.is_valid(),
            other.is_valid(),
        ensures
            self.instant() < other.instant() <==> self.comes_before(other),
            self.instant() == other.instant() <==> self == other,
    {
        if is_earlier_date(self.year, self.month, self.day, other.year, other.month, other.day) {
            lemma_day_number_grows(
                self.year,
                self.month,
                self.day,
                other.year,
                other.month,
                other.day,
            );
        } else if is_earlier_date(
            other.year,
            other.month,
            other.day,
            self.year,
            self.month,
            self.day,
        ) {
            lemma_day_number_grows(
                other.year,
                other.month,
                other.day,
                self.year,
                self.month,
                self.day,
            );
        }
    }
}

/// A second between the start of the year 0 and the end of the year 9999.
#[derive(Clone, Copy, Debug, PartialEq, Eq)]
pub struct Timestamp {
    year: i32,
    month: u32,
    day: u32,
    hour: u32,
    minute: u32,
    second: u32,
}

impl View for Timestamp {
    type V = CivilTime;

    closed spec fn view(&self) -> CivilTime {
        CivilTime {
            year: self.year as int,
            month: self.month as int,
            day: self.day as int,
            hour: self.hour as int,
            minute: self.minute as int,
            second: self.second as int,
        }
    }
}

impl Timestamp {
    #[verifier::type_invariant]
    spec fn exists_in_calendar(self) -> bool {
        self@.is_valid()
    }

    /// The second with the given numbers, or `None` where there is no such
    /// second: the 30th of February, the hour 24.
    pub fn new(year: i32, month: u32, day: u32, hour: u32, minute: u32, second: u32) -> (made:
        Option<Timestamp>)
        ensures
            made is Some <==> (CivilTime {
                year: year as int,
                month: month as int,
                day: day as int,
                hour: hour as int,
                minute: minute as int,
                second: second as int,
            }).is_valid(),
            made matches Some(t) ==> t@ == (CivilTime {
                year: year as int,
                month: month as int,
                day: day as int,
                hour: hour as int,
                minute: minute as int,
                second: second as int,
            }),
    {
        if valid_date(year, month, day) && hour <= 23 && minute <= 59 && second <= 59 {
            Some(Timestamp { year, month, day, hour, minute, second })
        } else {
            None
        }
    }

    pub fn year(&self) -> (year: i32)
        ensures
            year == self@.year,
            self@.is_valid(),
    {
        proof {
            use_type_invariant(self);
        }
        self.year
    }

    pub fn month(&self) -> (month: u32)
        ensures
            month == self@.month,
            self@.is_valid(),
    {
        proof {
            use_type_invariant(self);
        }
        self.month
    }

    pub fn day(&self) -> (day: u32)
        ensures
            day == self@.day,
            self@.is_valid(),
    {
        proof {
            use_type_invariant(self);
        }
        self.day
    }

    pub fn hour(&self) -> (hour: u32)
        ensures
            hour == self@.hour,
            self@.is_valid(),
    {
        proof {
            use_type_invariant(self);
        }
        self.hour
    }

    pub fn minute(&self) -> (minute: u32)
        ensures
            minute == self@.minute,
            self@.is_valid(),
    {
        proof {
            use_type_invariant(self);
        }
        self.minute
    }

    pub fn second(&self) -> (second: u32)
        ensures
            second == self@.second,
            self@.is_valid(),
    {
        proof {
            use_type_invariant(self);
        }
        self.second
    }

    /// The day of the week on which this second lies.
    pub fn weekday(&self) -> (w: Weekday)
        ensures
            w == self@.weekday(),
    {
        proof {
            use_type_invariant(self);
        }
        weekday(self.year, self.month, self.day)
    }

    /// Whether both seconds lie on one calendar day.
    pub fn same_day(&self, other: &Timestamp) -> (same: bool)
        ensures
            same == self@.same_day(other@),
    {
        self.year == other.year && self.month == other.month && self.day == other.day
    }

    /// The number of seconds from the start of the year 0 to this second.
    pub fn seconds(&self) -> (count: i64)
        ensures
            count == self@.instant(),
    {
        proof {
            use_type_invariant(self);
        }
        let days: i64 = day_count(self.year, self.month, self.day);
        days * 86400 + (self.hour as i64) * 3600 + (self.minute as i64) * 60 + (self.second as i64)
    }

    /// Whether this second comes after `other`.
    pub fn is_after(&self, other: &Timestamp) -> (later: bool)
        ensures
            later == (self@.instant() > other@.instant()),
    {
        self.seconds() > other.seconds()
    }
}

/// Why a text is no timestamp.
#[derive(Clone, Copy, Debug, PartialEq, Eq, Structural)]
pub enum ParseError {
    /// The text has none of the lengths 8, 14, 15 and 16.
    UnrecognizedLength,
    /// A place that must hold a digit, or the separator, holds something else.
    Malformed,
    /// The digits name a day or a time of day that does not exist.
    OutOfRange,
}

/// Whether a text of this length can be a timestamp.
pub open spec fn is_recognized_length(len: nat) -> bool {
    len == 8 || len == 14 || len == 15 || len == 16
}

/// Where the six digits of the time of day start, in a text of 14, 15 or 16
/// characters: behind the separator `T` where the text has one at its ninth
/// place, else directly behind the date.
pub open spec fn time_start(text: Seq<char>) -> int {
    if text.len() >= 15 && text[8] == 'T' {
        9
    } else {
        8
    }
}

/// Whether a text of a recognised length has digits, and the separator,
/// where its form wants them:
/// - 8 characters: `YYYYMMDD`;
/// - 14 characters: `YYYYMMDDHHMMSS`;
/// - 15 characters: `YYYYMMDDTHHMMSS`, or the form of 14 and one more
///   character, which is not looked at;
/// - 16 characters: `YYYYMMDDTHHMMSS` and one more character, the marker
///   `Z`, which is not looked at.
pub open spec fn is_well_formed(text: Seq<char>) -> bool {
    if text.len() == 8 {
        digits_at(text, 0, 8)
    } else {
        &&& digits_at(text, 0, 8)
        &&& digits_at(text, time_start(text), 6)
        &&& text.len() == 16 ==> text[8] == 'T'
    }
}

/// The second that the digits of a well-formed text write down: midnight
/// where the text is a date alone.
pub open spec fn written_time(text: Seq<char>) -> CivilTime {
    let at = time_start(text);
    CivilTime {
        year: number_at(text, 0, 4),
        month: number_at(text, 4, 2),
        day: number_at(text, 6, 2),
        hour: if text.len() == 8 {
            0
        } else {
            number_at(text, at, 2)
        },
        minute: if text.len() == 8 {
            0
        } else {
            number_at(text, at + 2, 2)
        },
        second: if text.len() == 8 {
            0
        } else {
            number_at(text, at + 4, 2)
        },
    }
}

/// What a text means as a timestamp.
pub open spec fn timestamp_of(text: Seq<char>) -> Result<CivilTime, ParseError> {
    if !is_recognized_length(text.len()) {
        Err(ParseError::UnrecognizedLength)
    } else if !is_well_formed(text) {
        Err(ParseError::Malformed)
    } else if !written_time(text).is_valid() {
        Err(ParseError::OutOfRange)
    } else {
        Ok(written_time(text))
    }
}

/// Reads the decimal number of `len` digits that starts at `from`; `None`
/// where one of the characters is no digit.
fn read_number(text: &Vec<char>, from: usize, len: usize) -> (number: Option<u32>)
    requires
        from + len <= text.len(),
        len <= 4,
    ensures
        number is Some <==> digits_at(text@, from as int, len as int),
        number matches Some(n) ==> n == number_at(text@, from as int, len as int) && n <= 9999,
{
    let mut value: u32 = 0;
    let mut k: usize = 0;
    while k < len
        invariant
            k <= len <= 4,
            from + len <= text.len(),
            digits_at(text@, from as int, k as int),
            value == number_at(text@, from as int, k as int),
            0 <= value <= 9999,
            k == 0 ==> value == 0,
            k == 1 ==> value <= 9,
            k == 2 ==> value <= 99,
            k == 3 ==> value <= 999,
        decreases len - k,
    {
        let c: char = text[from + k];
        if c < '0' || c > '9' {
            assert(!is_digit(text@[from + k]));
            return None;
        }
        value = value * 10 + (c as u32 - '0' as u32);
        k += 1;
    }
    Some(value)
}

/// Reads a timestamp from the text that `text` holds character by character.
pub fn parse_timestamp_chars(text: &Vec<char>) -> (parsed: Result<Timestamp, ParseError>)
    ensures
        match parsed {
            Ok(t) => timestamp_of(text@) == Ok::<CivilTime, ParseError>(t@),
            Err(e) => timestamp_of(text@) == Err::<CivilTime, ParseError>(e),
        },
{
    let len: usize = text.len();
    if len != 8 && len != 14 && len != 15 && len != 16 {
        return Err(ParseError::UnrecognizedLength);
    }
    let year: Option<u32> = read_number(text, 0, 4);
    let month: Option<u32> = read_number(text, 4, 2);
    let day: Option<u32> = read_number(text, 6, 2);
    proof {
        assert(digits_at(text@, 0, 8) <==> digits_at(text@, 0, 4) && digits_at(text@, 4, 2)
            && digits_at(text@, 6, 2));
    }
    if year.is_none() || month.is_none() || day.is_none() {
        return Err(ParseError::Malformed);
    }
    let (hour, minute, second): (u32, u32, u32) = if len == 8 {
        (0, 0, 0)
    } else {
        let separated: bool = len >= 15 && text[8] == 'T';
        if len == 16 && !separated {
            return Err(ParseError::Malformed);
        }
        let at: usize = if separated {
            9
        } else {
            8
        };
        let hour: Option<u32> = read_number(text, at, 2);
        let minute: Option<u32> = read_number(text, at + 2, 2);
        let second: Option<u32> = read_number(text, at + 4, 2);
        proof {
            assert(digits_at(text@, at as int, 6) <==> digits_at(text@, at as int, 2) && digits_at(
                text@,
                at + 2,
                2,
            ) && digits_at(text@, at + 4, 2));
        }
        if hour.is_none() || minute.is_none() || second.is_none() {
            return Err(ParseError::Malformed);
        }
        (hour.unwrap(), minute.unwrap(), second.unwrap())
    };
    match Timestamp::new(year.unwrap() as i32, month.unwrap(), day.unwrap(), hour, minute, second) {
        Some(t) => Ok(t),
        None => Err(ParseError::OutOfRange),
    }
}

/// Reads a timestamp.
///
/// The form is told by the length of the text alone. A date of eight digits
/// means midnight of that day. A trailing marker is dropped without a look
/// at it, and every time is taken as UTC.
pub fn parse_timestamp(timestamp: &str) -> (parsed: Result<Timestamp, ParseError>)
    ensures
        match parsed {
            Ok(t) => timestamp_of(timestamp@) == Ok::<CivilTime, ParseError>(t@),
            Err(e) => timestamp_of(timestamp@) == Err::<CivilTime, ParseError>(e),
        },
{
    let text: Vec<char> = chars_of(timestamp);
    parse_timestamp_chars(&text)
}

/// A text of eight characters that is a timestamp means midnight.
pub proof fn lemma_date_means_midnight(text: Seq<char>)
    requires
        text.len() == 8,
    ensures
        timestamp_of(text) matches Ok(t) ==> t.hour == 0 && t.minute == 0 && t.second == 0,
{
}

/// The numbers of a timestamp are the digits of its text, read in decimal:
/// four for the year, then two each. Neither the separator nor a trailing
/// marker changes them.
pub proof fn lemma_timestamp_is_its_digits(text: Seq<char>)
    requires
        text.len() == 14 || text.len() == 15 || text.len() == 16,
    ensures
        timestamp_of(text) matches Ok(t) ==> {
            let at = if text[8] == 'T' {
                9int
            } else {
                8int
            };
            &&& digits_at(text, 0, 8) && digits_at(text, at, 6)
            &&& t.year == number_at(text, 0, 4)
            &&& t.month == number_at(text, 4, 2)
            &&& t.day == number_at(text, 6, 2)
            &&& t.hour == number_at(text, at, 2)
            &&& t.minute == number_at(text, at + 2, 2)
            &&& t.second == number_at(text, at + 4, 2)
        },
{
    if text.len() == 14 && timestamp_of(text) is Ok {
        assert(is_digit(text[8]));
    }
}

/// One more character behind a date-time changes nothing, whatever the
/// character is.
pub proof fn lemma_trailing_marker_is_ignored(text: Seq<char>, marker: char)
    requires
        text.len() == 14 || (text.len() == 15 && text[8] == 'T'),
        timestamp_of(text) is Ok,
    ensures
        timestamp_of(text.push(marker)) == timestamp_of(text),
{
    let longer = text.push(marker);
    if text.len() == 14 {
        assert(is_digit(text[8]));
    }
    assert(time_start(longer) == time_start(text));
    assert forall|from: int, len: int| 0 <= from && from + len <= text.len() implies number_at(
        longer,
        from,
        len,
    ) == number_at(text, from, len) by {
        lemma_number_of_prefix(text, marker, from, len);
    }
    assert(digits_at(longer, 0, 8)) by {
        assert forall|i: int| 0 <= i < 8 implies is_digit(#[trigger] longer[i]) by {
            assert(longer[i] == text[i]);
        }
    }
    assert(digits_at(longer, time_start(text), 6)) by {
        assert forall|i: int| time_start(text) <= i < time_start(text) + 6 implies is_digit(
            #[trigger] longer[i],
        ) by {
            assert(longer[i] == text[i]);
        }
    }
    assert(written_time(longer) == written_time(text));
}

/// A number read from a text does not change when a character is put
/// behind the text.
proof fn lemma_number_of_prefix(text: Seq<char>, marker: char, from: int, len: int)
    requires
        0 <= from,
        from + len <= text.len(),
    ensures
        number_at(text.push(marker), from, len) == number_at(text, from, len),
    decreases len,
{
    if len > 0 {
        lemma_number_of_prefix(text, marker, from, len - 1);
        assert(text.push(marker)[from + len - 1] == text[from + len - 1]);
    }
}

/// A text of another length than 8, 14, 15 and 16 is reported as such.
pub proof fn lemma_other_lengths_are_reported(text: Seq<char>)
    requires
        !is_recognized_length(text.len()),
    ensures
        timestamp_of(text) == Err::<CivilTime, ParseError>(ParseError::UnrecognizedLength),
{
}

} // verus!
