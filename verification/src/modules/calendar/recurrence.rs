//! Recurrence rules: how often an appointment repeats, and until when.

use crate::modules::calendar::timestamp::{
    parse_timestamp_chars, timestamp_of, CivilTime, Timestamp,
};
use crate::text::{
    chars_of, matches_at, occurs_at, read_unsigned, split, split_chars, string_of, unsigned_of,
    views_of,
};
use vstd::prelude::*;

verus! {

/// How often an appointment repeats.
#[derive(Debug, Clone, Copy, PartialEq, Eq, Structural)]
pub enum Frequency {
    Yearly,
    Monthly,
    Weekly,
    Daily,
}

/// A recurrence rule as a calendar record may carry it before it is read.
#[derive(Debug, Clone)]
pub struct RepeatRule {
    pub frequency: Option<String>,
    pub by_day: Option<Vec<String>>,
    pub by_monthday: Option<u32>,
}

/// A recurrence rule that was read.
#[derive(Debug, Clone)]
pub struct RecurringEvent {
    frequency: Frequency,
    until: Option<Timestamp>,
    by_day: Option<String>,
    by_month_day: Option<u32>,
    count: Option<u32>,
}

/// A recurrence rule as plain values.
pub struct RecurrenceView {
    pub frequency: Frequency,
    /// The second after which the rule no longer applies.
    pub until: Option<CivilTime>,
    /// The day-of-week token, as it was written.
    pub by_day: Option<Seq<char>>,
    pub by_month_day: Option<u32>,
    /// Never set by reading a rule.
    pub count: Option<u32>,
}

impl View for RecurringEvent {
    type V = RecurrenceView;

    closed spec fn view(&self) -> RecurrenceView {
        RecurrenceView {
            frequency: self.frequency,
            until: match self.until {
                Some(t) => Some(t@),
                None => None,
            },
            by_day: match self.by_day {
                Some(d) => Some(d@),
                None => None,
            },
            by_month_day: self.by_month_day,
            count: self.count,
        }
    }
}

/// Whether `part` is `key`, an equals sign and a value.
pub open spec fn has_key(part: Seq<char>, key: Seq<char>) -> bool {
    &&& part.len() > key.len()
    &&& occurs_at(part, key, 0)
    &&& part[key.len() as int] == '='
}

/// Whether `part` is a token that a rule may hold: nothing at all, as a
/// semicolon at the end of the rule leaves it, or one of the six known keys
/// with a value.
pub open spec fn is_rule_part(part: Seq<char>) -> bool {
    ||| part.len() == 0
    ||| has_key(part, "FREQ"@)
    ||| has_key(part, "WKST"@)
    ||| has_key(part, "UNTIL"@)
    ||| has_key(part, "BYDAY"@)
    ||| has_key(part, "BYMONTHDAY"@)
    ||| has_key(part, "COUNT"@)
}

/// The value of the first of `parts` that has the key `key`.
pub open spec fn value_of(parts: Seq<Seq<char>>, key: Seq<char>) -> Option<Seq<char>>
    decreases parts.len(),
{
    if parts.len() == 0 {
        None
    } else if has_key(parts[0], key) {
        Some(parts[0].skip(key.len() as int + 1))
    } else {
        value_of(parts.drop_first(), key)
    }
}

/// The frequency that a value of the key `FREQ` names.
pub open spec fn frequency_of(value: Seq<char>) -> Option<Frequency> {
    if value == "YEARLY"@ {
        Some(Frequency::Yearly)
    } else if value == "MONTHLY"@ {
        Some(Frequency::Monthly)
    } else if value == "WEEKLY"@ {
        Some(Frequency::Weekly)
    } else if value == "DAILY"@ {
        Some(Frequency::Daily)
    } else {
        None
    }
}

/// What a text means as a recurrence rule.
///
/// The text is cut at its semicolons, and each piece must be a known key
/// with a value, or empty. The rule needs a `FREQ` with one of the four
/// known values. An `UNTIL` must be a timestamp. `BYDAY` is kept as written;
/// a `BYMONTHDAY` that is no number is passed over; `WKST` and `COUNT` are
/// allowed and not looked at. Of two pieces with one key the first counts.
pub open spec fn rule_of(text: Seq<char>) -> Option<RecurrenceView> {
    let parts = split(text, ';');
    if !(forall|i: int| 0 <= i < parts.len() ==> is_rule_part(#[trigger] parts[i])) {
        None
    } else {
        match value_of(parts, "FREQ"@) {
            None => None,
            Some(f) => match frequency_of(f) {
                None => None,
                Some(frequency) => {
                    let by_day = value_of(parts, "BYDAY"@);
                    let by_month_day = match value_of(parts, "BYMONTHDAY"@) {
                        Some(d) => unsigned_of(d),
                        None => None,
                    };
                    match value_of(parts, "UNTIL"@) {
                        None => Some(
                            RecurrenceView {
                                frequency,
                                until: None,
                                by_day,
                                by_month_day,
                                count: None,
                            },
                        ),
                        Some(u) => match timestamp_of(u) {
                            Err(_) => None,
                            Ok(until) => Some(
                                RecurrenceView {
                                    frequency,
                                    until: Some(until),
                                    by_day,
                                    by_month_day,
                                    count: None,
                                },
                            ),
                        },
                    }
                },
            },
        }
    }
}

/// Tells whether `part` is `key`, an equals sign and a value.
fn part_has_key(part: &Vec<char>, key: &str) -> (has: bool)
    ensures
        has == has_key(part@, key@),
{
    let key_chars: Vec<char> = chars_of(key);
    part.len() > key_chars.len() && matches_at(part, &key_chars, 0) && part[key_chars.len()] == '='
}

/// Tells whether `part` may stand in a rule.
fn part_is_known(part: &Vec<char>) -> (known: bool)
    ensures
        known == is_rule_part(part@),
{
    part.len() == 0 || part_has_key(part, "FREQ") || part_has_key(part, "WKST") || part_has_key(
        part,
        "UNTIL",
    ) || part_has_key(part, "BYDAY") || part_has_key(part, "BYMONTHDAY") || part_has_key(
        part,
        "COUNT",
    )
}

/// Looks up the value of the first part with the key `key`.
fn find_value(parts: &Vec<Vec<char>>, key: &str) -> (value: Option<Vec<char>>)
    ensures
        match value {
            Some(v) => value_of(views_of(parts@), key@) == Some(v@),
            None => value_of(views_of(parts@), key@) is None,
        },
{
    let key_chars: Vec<char> = chars_of(key);
    let mut i: usize = 0;
    assert(views_of(parts@).skip(0) =~= views_of(parts@));
    while i < parts.len()
        invariant
            i <= parts.len(),
            key_chars@ == key@,
            value_of(views_of(parts@), key@) == value_of(views_of(parts@).skip(i as int), key@),
        decreases parts.len() - i,
    {
        let part: &Vec<char> = &parts[i];
        assert(views_of(parts@).skip(i as int)[0] == part@);
        assert(views_of(parts@).skip(i as int).drop_first() =~= views_of(parts@).skip(i + 1));
        if part_has_key(part, key) {
            let end: usize = part.len();
            let mut value: Vec<char> = Vec::new();
            let mut k: usize = key_chars.len() + 1;
            while k < end
                invariant
                    key_chars.len() + 1 <= k <= end == part.len(),
                    value@ == part@.subrange(key_chars.len() + 1, k as int),
                decreases end - k,
            {
                value.push(part[k]);
                assert(part@.subrange(key_chars.len() + 1, k as int).push(part@[k as int])
                    =~= part@.subrange(key_chars.len() + 1, k + 1));
                k += 1;
            }
            assert(value@ =~= part@.skip(key_chars.len() + 1));
            return Some(value);
        }
        i += 1;
    }
    None
}

/// Tells whether `value` is the word `word`.
fn is_word(value: &Vec<char>, word: &str) -> (same: bool)
    ensures
        same == (value@ == word@),
{
    let word_chars: Vec<char> = chars_of(word);
    let same: bool = value.len() == word_chars.len() && matches_at(value, &word_chars, 0);
    proof {
        if value.len() == word_chars.len() {
            assert(value@.subrange(0, value.len() as int) =~= value@);
        }
    }
    same
}

/// Names the frequency that a value of `FREQ` stands for.
fn read_frequency(value: &Vec<char>) -> (frequency: Option<Frequency>)
    ensures
        frequency == frequency_of(value@),
{
    if is_word(value, "YEARLY") {
        Some(Frequency::Yearly)
    } else if is_word(value, "MONTHLY") {
        Some(Frequency::Monthly)
    } else if is_word(value, "WEEKLY") {
        Some(Frequency::Weekly)
    } else if is_word(value, "DAILY") {
        Some(Frequency::Daily)
    } else {
        None
    }
}

/// Reads a recurrence rule, such as `FREQ=WEEKLY;BYDAY=MO;UNTIL=20250101T000000Z`.
///
/// A text that is no rule gives `None`: the appointment that carries it is
/// then kept as one that does not repeat.
pub fn parse_recurring_event(data: &str) -> (rule: Option<RecurringEvent>)
    ensures
        match rule {
            Some(r) => rule_of(data@) == Some(r@),
            None => rule_of(data@) is None,
        },
{
    let text: Vec<char> = chars_of(data);
    let parts: Vec<Vec<char>> = split_chars(&text, ';');
    let mut i: usize = 0;
    while i < parts.len()
        invariant
            i <= parts.len(),
            views_of(parts@) == split(data@, ';'),
            forall|k: int| 0 <= k < i ==> is_rule_part(#[trigger] views_of(parts@)[k]),
        decreases parts.len() - i,
    {
        if !part_is_known(&parts[i]) {
            assert(!is_rule_part(views_of(parts@)[i as int]));
            return None;
        }
        i += 1;
    }
    let frequency: Frequency = match find_value(&parts, "FREQ") {
        None => {
            return None;
        },
        Some(value) => match read_frequency(&value) {
            None => {
                return None;
            },
            Some(frequency) => frequency,
        },
    };
    let by_day: Option<String> = match find_value(&parts, "BYDAY") {
        Some(value) => {
            assert(value@.subrange(0, value@.len() as int) =~= value@);
            Some(string_of(&value, 0, value.len()))
        },
        None => None,
    };
    let by_month_day: Option<u32> = match find_value(&parts, "BYMONTHDAY") {
        Some(value) => read_unsigned(&value),
        None => None,
    };
    let until: Option<Timestamp> = match find_value(&parts, "UNTIL") {
        None => None,
        Some(value) => match parse_timestamp_chars(&value) {
            Err(_) => {
                return None;
            },
            Ok(t) => Some(t),
        },
    };
    Some(RecurringEvent { frequency, until, by_day, by_month_day, count: None })
}

impl RecurringEvent {
    /// A rule with the given parts and no count.
    pub fn new(
        frequency: Frequency,
        until: Option<Timestamp>,
        by_day: Option<String>,
        by_month_day: Option<u32>,
    ) -> (rule: RecurringEvent)
        ensures
            rule@ == (RecurrenceView {
                frequency,
                until: match until {
                    Some(t) => Some(t@),
                    None => None,
                },
                by_day: match by_day {
                    Some(d) => Some(d@),
                    None => None,
                },
                by_month_day,
                count: None,
            }),
    {
        RecurringEvent { frequency, until, by_day, by_month_day, count: None }
    }

    pub fn frequency(&self) -> (frequency: Frequency)
        ensures
            frequency == self@.frequency,
    {
        self.frequency
    }

    pub fn until(&self) -> (until: Option<Timestamp>)
        ensures
            until is Some == self@.until is Some,
            until matches Some(t) ==> self@.until == Some(t@),
    {
        self.until
    }

    pub fn by_day(&self) -> (by_day: Option<&String>)
        ensures
            by_day is Some == self@.by_day is Some,
            by_day matches Some(d) ==> self@.by_day == Some(d@),
    {
        self.by_day.as_ref()
    }

    pub fn by_month_day(&self) -> (by_month_day: Option<u32>)
        ensures
            by_month_day == self@.by_month_day,
    {
        self.by_month_day
    }

    pub fn count(&self) -> (count: Option<u32>)
        ensures
            count == self@.count,
    {
        self.count
    }
}

} // verus!
