//! Telling from the names in a message which place its weather question is
//! about.

use crate::text::same_text;
use vstd::prelude::*;

verus! {

/// A name that was recognised in a message, with the group it belongs to:
/// `LOC` for a place, `ORG` for an organisation.
#[derive(Debug, Clone)]
pub struct NamedEntity {
    pub entity_group: String,
    pub word: String,
}

/// A recognised name as plain values.
pub struct NamedEntityView {
    pub entity_group: Seq<char>,
    pub word: Seq<char>,
}

impl View for NamedEntity {
    type V = NamedEntityView;

    open spec fn view(&self) -> NamedEntityView {
        NamedEntityView { entity_group: self.entity_group@, word: self.word@ }
    }
}

/// The entities as plain values.
pub open spec fn entity_views(entities: Seq<NamedEntity>) -> Seq<NamedEntityView> {
    entities.map_values(|e: NamedEntity| e@)
}

/// The word of the first of `entities` that belongs to `group`.
pub open spec fn first_of_group(entities: Seq<NamedEntityView>, group: Seq<char>) -> Option<
    Seq<char>,
>
    decreases entities.len(),
{
    if entities.len() == 0 {
        None
    } else if entities[0].entity_group == group {
        Some(entities[0].word)
    } else {
        first_of_group(entities.drop_first(), group)
    }
}

/// The place that a message speaks of: the first name that is a place, or,
/// where there is none, the first that is an organisation.
pub open spec fn location_of(entities: Seq<NamedEntityView>) -> Option<Seq<char>> {
    match first_of_group(entities, "LOC"@) {
        Some(word) => Some(word),
        None => first_of_group(entities, "ORG"@),
    }
}

/// Looks for the first of `entities` that belongs to `group`.
fn find_in_group(entities: &Vec<NamedEntity>, group: &str) -> (found: Option<String>)
    ensures
        match found {
            Some(word) => first_of_group(entity_views(entities@), group@) == Some(word@),
            None => first_of_group(entity_views(entities@), group@) is None,
        },
{
    let ghost all = entity_views(entities@);
    let mut i: usize = 0;
    assert(all.skip(0) =~= all);
    while i < entities.len()
        invariant
            i <= entities.len(),
            all == entity_views(entities@),
            first_of_group(all, group@) == first_of_group(all.skip(i as int), group@),
        decreases entities.len() - i,
    {
        proof {
            assert(all.skip(i as int)[0] == entities@[i as int]@);
            assert(all.skip(i as int).drop_first() =~= all.skip(i + 1));
        }
        if same_text(entities[i].entity_group.as_str(), group) {
            return Some(entities[i].word.clone());
        }
        i += 1;
    }
    None
}

/// Names the place that the recognised names of a message point to.
pub fn first_location(entities: &Vec<NamedEntity>) -> (place: Option<String>)
    ensures
        match place {
            Some(word) => location_of(entity_views(entities@)) == Some(word@),
            None => location_of(entity_views(entities@)) is None,
        },
{
    match find_in_group(entities, "LOC") {
        Some(word) => Some(word),
        None => find_in_group(entities, "ORG"),
    }
}

} // verus!
