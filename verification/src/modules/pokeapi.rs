//! What is told of a pokemon, and finding the name of one in a sentence.

use crate::message_parsers::lowercase;
use crate::pattern::{is_found, is_match};
use crate::text::{decimal_text, push_decimal, texts_of};
use vstd::prelude::*;
use vstd::string::StringExecFns;

verus! {

/// Things that can be described to the chat partner.
pub trait PokemonEx {
    fn to_ai_string(&self) -> String;
}

/// What is known of a pokemon.
#[derive(Debug, Clone)]
pub struct PokemonInfo {
    pub name: String,
    pub types: Vec<String>,
    pub abilities: Vec<String>,
    pub weight: i64,
}

/// `words` with a blank between each two.
pub open spec fn joined(words: Seq<Seq<char>>) -> Seq<char>
    decreases words.len(),
{
    if words.len() == 0 {
        Seq::empty()
    } else if words.len() == 1 {
        words[0]
    } else {
        joined(words.drop_last()) + seq![' '] + words.last()
    }
}

/// `n` in decimal digits, with a minus sign where it is negative.
pub open spec fn signed_text(n: int) -> Seq<char> {
    if n < 0 {
        seq!['-'] + decimal_text((-n) as nat)
    } else {
        decimal_text(n as nat)
    }
}

/// The description of a pokemon.
pub open spec fn description(
    name: Seq<char>,
    types: Seq<Seq<char>>,
    abilities: Seq<Seq<char>>,
    weight: int,
) -> Seq<char> {
    "info about "@ + name + "\ntypes "@ + joined(types) + "\nabilities "@ + joined(abilities)
        + "\nweight "@ + signed_text(weight)
}

/// Writes `words` behind `text`, with a blank between each two.
fn push_joined(text: &mut String, words: &Vec<String>)
    ensures
        final(text)@ == old(text)@ + joined(texts_of(words@)),
{
    let ghost start = text@;
    let ghost all = texts_of(words@);
    let mut i: usize = 0;
    assert(start + joined(all.take(0)) =~= start);
    while i < words.len()
        invariant
            i <= words.len(),
            all == texts_of(words@),
            text@ == start + joined(all.take(i as int)),
        decreases words.len() - i,
    {
        proof {
            assert(all.take(i + 1).drop_last() =~= all.take(i as int));
            assert(all.take(i + 1).last() == words@[i as int]@);
        }
        if i > 0 {
            text.push(' ');
        }
        text.append(words[i].as_str());
        assert(text@ =~= start + joined(all.take(i + 1)));
        i += 1;
    }
    assert(all.take(all.len() as int) =~= all);
}

impl PokemonEx for PokemonInfo {
    /// Describes the pokemon by name, types, abilities and weight.
    fn to_ai_string(&self) -> (text: String)
        ensures
            text@ == description(
                self.name@,
                texts_of(self.types@),
                texts_of(self.abilities@),
                self.weight as int,
            ),
    {
        let mut text: String = String::new();
        text.append("info about ");
        text.append(self.name.as_str());
        text.append("\ntypes ");
        push_joined(&mut text, &self.types);
        text.append("\nabilities ");
        push_joined(&mut text, &self.abilities);
        text.append("\nweight ");
        if self.weight < 0 {
            text.push('-');
            let size: u64 = (-(self.weight + 1)) as u64 + 1;
            let _ = push_decimal(&mut text, size);
        } else {
            let _ = push_decimal(&mut text, self.weight as u64);
        }
        assert(text@ =~= description(
            self.name@,
            texts_of(self.types@),
            texts_of(self.abilities@),
            self.weight as int,
        ));
        text
    }
}

/// The regular expression that finds `name` as a word of its own.
pub open spec fn name_pattern(name: Seq<char>) -> Seq<char> {
    "\\b"@ + name + "\\b"@
}

/// The first of `names` that stands in `sentence` as a word of its own.
pub open spec fn first_named(sentence: Seq<char>, names: Seq<Seq<char>>) -> Option<Seq<char>>
    decreases names.len(),
{
    if names.len() == 0 {
        None
    } else if is_found(name_pattern(names[0]), sentence) {
        Some(names[0])
    } else {
        first_named(sentence, names.drop_first())
    }
}

/// Looks in `sentence`, taken as it is, for the first of `names` that
/// stands there as a word of its own. A name that makes no regular
/// expression is found nowhere.
pub fn find_name(sentence: &str, names: &Vec<String>) -> (found: Option<String>)
    ensures
        match found {
            Some(name) => first_named(sentence@, texts_of(names@)) == Some(name@),
            None => first_named(sentence@, texts_of(names@)) is None,
        },
{
    let ghost all = texts_of(names@);
    let mut i: usize = 0;
    assert(all.skip(0) =~= all);
    while i < names.len()
        invariant
            i <= names.len(),
            all == texts_of(names@),
            first_named(sentence@, all) == first_named(sentence@, all.skip(i as int)),
        decreases names.len() - i,
    {
        proof {
            assert(all.skip(i as int)[0] == names@[i as int]@);
            assert(all.skip(i as int).drop_first() =~= all.skip(i + 1));
        }
        let mut pattern: String = String::new();
        pattern.append("\\b");
        pattern.append(names[i].as_str());
        pattern.append("\\b");
        assert(pattern@ =~= name_pattern(names@[i as int]@));
        if is_match(pattern.as_str(), sentence) {
            return Some(names[i].clone());
        }
        i += 1;
    }
    None
}

/// Looks in `sentence`, put in lower case, for the first of `names` that
/// stands there as a word of its own.
pub fn find_pokemon(sentence: &str, names: &Vec<String>) -> (found: Option<String>)
    ensures
        match found {
            Some(name) => first_named(lowercase(sentence@), texts_of(names@)) == Some(name@),
            None => first_named(lowercase(sentence@), texts_of(names@)) is None,
        },
{
    let lowered: String = sentence.to_lowercase();
    find_name(lowered.as_str(), names)
}

} // verus!
