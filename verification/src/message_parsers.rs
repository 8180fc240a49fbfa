//! Telling from the words of a message what it asks about.

use crate::pattern::{is_found, is_match};
use crate::text::{chars_of, contains_chars, text_contains, texts_of, words, words_of};
use vstd::prelude::*;

verus! {

/// What `str::to_lowercase` makes of a text.
pub uninterp spec fn lowercase(text: Seq<char>) -> Seq<char>;

/// `str::to_lowercase` returns the lower-case form of the text as a new
/// `String`; it depends on the characters of the text alone.
pub assume_specification[ str::to_lowercase ](text: &str) -> (lowered: String)
    ensures
        lowered@ == lowercase(text@),
;

/// The things a message can ask about.
#[derive(Clone, Copy, Debug, PartialEq, Eq, Structural)]
pub enum Topic {
    Time,
    Appointment,
    Pictures,
    Pokemon,
    Weather,
}

/// Whether `text` holds one of the key words of `topic`. The key words are
/// in lower case, so `text` should be too.
pub open spec fn mentions_topic(text: Seq<char>, topic: Topic) -> bool {
    match topic {
        Topic::Time => {
            ||| text_contains(text, "time"@)
            ||| text_contains(text, "hour"@)
            ||| text_contains(text, "minute"@)
            ||| text_contains(text, "clock"@)
            ||| text_contains(text, "date"@)
        },
        Topic::Appointment => {
            ||| text_contains(text, "appointment"@)
            ||| text_contains(text, "calendar"@)
            ||| text_contains(text, "schedule"@)
        },
        Topic::Pictures => {
            ||| text_contains(text, "picture"@)
            ||| text_contains(text, "photo"@)
            ||| text_contains(text, "image"@)
            ||| text_contains(text, "see you"@)
            ||| text_contains(text, "show"@)
        },
        Topic::Pokemon => {
            ||| text_contains(text, "pokemon"@)
            ||| text_contains(text, "pokedex"@)
            ||| text_contains(text, "dex"@)
            ||| text_contains(text, "poke"@)
            ||| text_contains(text, "pok"@)
            ||| text_contains(text, "type"@)
        },
        Topic::Weather => {
            ||| text_contains(text, "temperature"@)
            ||| text_contains(text, "weather"@)
            ||| text_contains(text, "forecast"@)
        },
    }
}

/// Searches `text` for the key word `word`.
fn has_word(text: &Vec<char>, word: &str) -> (found: bool)
    ensures
        found == text_contains(text@, word@),
{
    let pattern: Vec<char> = chars_of(word);
    contains_chars(text, &pattern)
}

/// Tells whether `text`, taken as it is, holds a key word of `topic`.
pub fn mentions(text: &str, topic: Topic) -> (found: bool)
    ensures
        found == mentions_topic(text@, topic),
{
    let chars: Vec<char> = chars_of(text);
    match topic {
        Topic::Time => {
            has_word(&chars, "time") || has_word(&chars, "hour") || has_word(&chars, "minute")
                || has_word(&chars, "clock") || has_word(&chars, "date")
        },
        Topic::Appointment => {
            has_word(&chars, "appointment") || has_word(&chars, "calendar") || has_word(
                &chars,
                "schedule",
            )
        },
        Topic::Pictures => {
            has_word(&chars, "picture") || has_word(&chars, "photo") || has_word(&chars, "image")
                || has_word(&chars, "see you") || has_word(&chars, "show")
        },
        Topic::Pokemon => {
            has_word(&chars, "pokemon") || has_word(&chars, "pokedex") || has_word(&chars, "dex")
                || has_word(&chars, "poke") || has_word(&chars, "pok") || has_word(&chars, "type")
        },
        Topic::Weather => {
            has_word(&chars, "temperature") || has_word(&chars, "weather") || has_word(
                &chars,
                "forecast",
            )
        },
    }
}

/// Whether the question, in lower case, speaks of the time or the date.
pub fn is_question_about_time(question: &str) -> (asked: bool)
    ensures
        asked == mentions_topic(lowercase(question@), Topic::Time),
{
    let lower_question: String = question.to_lowercase();
    mentions(lower_question.as_str(), Topic::Time)
}

/// Whether the question, in lower case, speaks of appointments.
pub fn is_question_about_appointment(question: &str) -> (asked: bool)
    ensures
        asked == mentions_topic(lowercase(question@), Topic::Appointment),
{
    let lower_question: String = question.to_lowercase();
    mentions(lower_question.as_str(), Topic::Appointment)
}

/// Whether the question, in lower case, asks for a picture.
pub fn user_asked_for_pictures(question: &str) -> (asked: bool)
    ensures
        asked == mentions_topic(lowercase(question@), Topic::Pictures),
{
    let lower_question: String = question.to_lowercase();
    mentions(lower_question.as_str(), Topic::Pictures)
}

/// Whether the question, in lower case, speaks of a pokemon.
pub fn is_question_about_pokemon(question: &str) -> (asked: bool)
    ensures
        asked == mentions_topic(lowercase(question@), Topic::Pokemon),
{
    let lower_question: String = question.to_lowercase();
    mentions(lower_question.as_str(), Topic::Pokemon)
}

/// Whether the question, in lower case, speaks of the weather.
pub fn is_question_about_weather(question: &str) -> (asked: bool)
    ensures
        asked == mentions_topic(lowercase(question@), Topic::Weather),
{
    let lower_question: String = question.to_lowercase();
    mentions(lower_question.as_str(), Topic::Weather)
}

/// The number of `flags` that are set.
pub open spec fn count_set(flags: Seq<bool>) -> nat
    decreases flags.len(),
{
    if flags.len() == 0 {
        0
    } else {
        count_set(flags.drop_last()) + if flags.last() {
            1nat
        } else {
            0nat
        }
    }
}

/// Tells whether two or more of `flags` are set.
pub fn at_least_two(flags: &Vec<bool>) -> (many: bool)
    ensures
        many == (count_set(flags@) >= 2),
{
    let mut count: usize = 0;
    let mut i: usize = 0;
    while i < flags.len()
        invariant
            i <= flags.len(),
            count == count_set(flags@.take(i as int)),
            count <= i,
        decreases flags.len() - i,
    {
        assert(flags@.take(i + 1).drop_last() =~= flags@.take(i as int));
        if flags[i] {
            count += 1;
        }
        i += 1;
    }
    assert(flags@.take(flags.len() as int) =~= flags@);
    count >= 2
}

/// Whether `word` holds `i`, `me`, `my` or `mine` as a word of its own, as
/// the regular expression `\b(i|me|my|mine|me)\b` finds it.
pub open spec fn is_self_reference(word: Seq<char>) -> bool {
    is_found("\\b(i|me|my|mine|me)\\b"@, word)
}

/// Whether two or more of the words of `text` speak of the speaker.
pub fn has_multiple_self_references(text: &str) -> (many: bool)
    ensures
        many == (count_set(words_of(text@).map_values(|word: Seq<char>| is_self_reference(word)))
            >= 2),
{
    let all: Vec<String> = words(text);
    let mut flags: Vec<bool> = Vec::new();
    let mut i: usize = 0;
    while i < all.len()
        invariant
            i <= all.len(),
            flags@ == texts_of(all@).take(i as int).map_values(
                |word: Seq<char>| is_self_reference(word),
            ),
        decreases all.len() - i,
    {
        let found: bool = is_match("\\b(i|me|my|mine|me)\\b", all[i].as_str());
        flags.push(found);
        assert(flags@ =~= texts_of(all@).take(i + 1).map_values(
            |word: Seq<char>| is_self_reference(word),
        ));
        i += 1;
    }
    assert(texts_of(all@).take(all.len() as int) =~= texts_of(all@));
    at_least_two(&flags)
}

} // verus!
