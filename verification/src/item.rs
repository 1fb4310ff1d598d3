//! Items: the candidates that the front end lists, and their order.

use std::cmp::Ordering;
use vstd::prelude::*;
use crate::dictionary::Dictionary;
use crate::text::{first_error, lemma_first_error_is};
use crate::value::StructuredValue;

verus! {

/// How two items stand to each other: by score where both have one; an
/// item with a score is above one without; two items without a score stand
/// in the reverse order of their ids, so that the one that came first is
/// the greater.
pub open spec fn rank_order(
    score: Option<u32>,
    id: usize,
    other_score: Option<u32>,
    other_id: usize,
) -> Ordering {
    match (score, other_score) {
        (Some(a), Some(b)) => if a < b {
            Ordering::Less
        } else if a == b {
            Ordering::Equal
        } else {
            Ordering::Greater
        },
        (Some(_), None) => Ordering::Greater,
        (None, Some(_)) => Ordering::Less,
        (None, None) => if other_id < id {
            Ordering::Less
        } else if other_id == id {
            Ordering::Equal
        } else {
            Ordering::Greater
        },
    }
}

/// Compares two items by score and id.
pub fn rank(score: Option<u32>, id: usize, other_score: Option<u32>, other_id: usize) -> (order:
    Ordering)
    ensures
        order == rank_order(score, id, other_score, other_id),
{
    match (score, other_score) {
        (Some(a), Some(b)) => {
            if a < b {
                Ordering::Less
            } else if a == b {
                Ordering::Equal
            } else {
                Ordering::Greater
            }
        },
        (Some(_), None) => Ordering::Greater,
        (None, Some(_)) => Ordering::Less,
        (None, None) => {
            if other_id < id {
                Ordering::Less
            } else if other_id == id {
                Ordering::Equal
            } else {
                Ordering::Greater
            }
        },
    }
}

/// The order that [`rank_order`] gives is the reverse of the order of the
/// two items taken the other way round.
pub proof fn lemma_rank_is_antisymmetric(
    score: Option<u32>,
    id: usize,
    other_score: Option<u32>,
    other_id: usize,
)
    ensures
        rank_order(score, id, other_score, other_id) == reversed(
            rank_order(other_score, other_id, score, id),
        ),
{
}

/// The order that turns `order` round.
pub open spec fn reversed(order: Ordering) -> Ordering {
    match order {
        Ordering::Less => Ordering::Greater,
        Ordering::Equal => Ordering::Equal,
        Ordering::Greater => Ordering::Less,
    }
}

/// Where an item is not greater than a second and the second not greater
/// than a third, the first is not greater than the third.
pub proof fn lemma_rank_is_transitive(
    a: (Option<u32>, usize),
    b: (Option<u32>, usize),
    c: (Option<u32>, usize),
)
    requires
        rank_order(a.0, a.1, b.0, b.1) != Ordering::Greater,
        rank_order(b.0, b.1, c.0, c.1) != Ordering::Greater,
    ensures
        rank_order(a.0, a.1, c.0, c.1) != Ordering::Greater,
{
}

/// Whether an item with this score and id stands below another.
pub open spec fn ranks_below(
    score: Option<u32>,
    id: usize,
    other_score: Option<u32>,
    other_id: usize,
) -> bool {
    rank_order(score, id, other_score, other_id) == Ordering::Less
}

/// Whether an item with this score and id stands below another.
pub fn is_below(score: Option<u32>, id: usize, other_score: Option<u32>, other_id: usize) -> (below:
    bool)
    ensures
        below == ranks_below(score, id, other_score, other_id),
{
    match rank(score, id, other_score, other_id) {
        Ordering::Less => true,
        _ => false,
    }
}

/// An item that stands above a second stands above or beside everything
/// that the second does not stand below.
pub proof fn lemma_below_chain(
    a: (Option<u32>, usize),
    b: (Option<u32>, usize),
    c: (Option<u32>, usize),
)
    requires
        ranks_below(b.0, b.1, a.0, a.1),
        !ranks_below(b.0, b.1, c.0, c.1),
    ensures
        !ranks_below(a.0, a.1, c.0, c.1),
{
}

/// Standing below is transitive and never mutual.
pub proof fn lemma_below_is_strict(
    a: (Option<u32>, usize),
    b: (Option<u32>, usize),
    c: (Option<u32>, usize),
)
    ensures
        !ranks_below(a.0, a.1, a.0, a.1),
        ranks_below(a.0, a.1, b.0, b.1) ==> !ranks_below(b.0, b.1, a.0, a.1),
        ranks_below(a.0, a.1, b.0, b.1) && ranks_below(b.0, b.1, c.0, c.1) ==> ranks_below(
            a.0,
            a.1,
            c.0,
            c.1,
        ),
{
}

/// A candidate: its key, the fields it came with, and what the matcher
/// made of it.
#[derive(Debug, PartialEq, Eq)]
pub struct Item {
    pub id: usize,
    pub key: String,
    pub fields: Dictionary<StructuredValue>,
    pub score: Option<u32>,
    pub match_indices: Option<Vec<usize>>,
}

/// Why a value is no item.
#[derive(Debug, Clone, PartialEq, Eq)]
pub enum ItemError {
    /// The value is not an object.
    NotAnObject,
    /// The object has no member `key`.
    MissingKey,
    /// The member `key` is not a string.
    KeyNotText,
}

/// Why `json` is no item, if it is none.
pub open spec fn item_fault(json: StructuredValue) -> Option<ItemError> {
    match json {
        StructuredValue::Object(props) => if props@.contains_key("key"@) {
            match props@["key"@] {
                StructuredValue::Text(_) => None,
                _ => Some(ItemError::KeyNotText),
            }
        } else {
            Some(ItemError::MissingKey)
        },
        _ => Some(ItemError::NotAnObject),
    }
}

/// Whether `item` is the item with this id that the object `json` makes.
pub open spec fn is_item(item: Item, id: usize, json: StructuredValue) -> bool {
    &&& json matches StructuredValue::Object(props)
    &&& props@.contains_key("key"@)
    &&& props@["key"@] matches StructuredValue::Text(key)
    &&& item.id == id
    &&& item.key@ == key@
    &&& item.fields == props
    &&& item.score is None
    &&& item.match_indices is None
}

/// The fault of each value.
pub open spec fn item_faults(values: Seq<StructuredValue>) -> Seq<Result<(), ItemError>> {
    values.map_values(
        |v: StructuredValue|
            match item_fault(v) {
                Some(e) => Err(e),
                None => Ok(()),
            },
    )
}

/// Makes an item of each value, with its position as the id, and stops at
/// the first value that is no item.
pub fn items_of(values: Vec<StructuredValue>) -> (outcome: Result<Vec<Item>, ItemError>)
    ensures
        match outcome {
            Ok(items) => {
                &&& first_error(item_faults(values@)) == values@.len()
                &&& items@.len() == values@.len()
                &&& forall|i: int|
                    0 <= i < values@.len() ==> is_item(#[trigger] items@[i], i as usize, values@[i])
            },
            Err(e) => {
                &&& first_error(item_faults(values@)) < values@.len()
                &&& item_fault(values@[first_error(item_faults(values@))]) == Some(e)
            },
        },
{
    let ghost faults = item_faults(values@);
    let mut items: Vec<Item> = Vec::new();
    for value in it: values
        invariant
            it.seq() == values@,
            faults == item_faults(values@),
            items@.len() == it.index(),
            forall|j: int| 0 <= j < it.index() ==> faults[j] is Ok,
            forall|j: int|
                0 <= j < it.index() ==> is_item(#[trigger] items@[j], j as usize, values@[j]),
    {
        let id = items.len();
        match Item::try_from_json(id, value) {
            Ok(item) => {
                items.push(item);
            },
            Err(e) => {
                proof {
                    lemma_first_error_is(faults, id as int);
                }
                return Err(e);
            },
        }
    }
    proof {
        lemma_first_error_is(faults, values@.len() as int);
    }
    Ok(items)
}

impl Item {
    /// An item that was not matched yet.
    pub fn new(id: usize, key: String, fields: Dictionary<StructuredValue>) -> (item: Self)
        ensures
            item.id == id,
            item.key == key,
            item.fields == fields,
            item.score is None,
            item.match_indices is None,
    {
        Item { id, key, fields, score: None, match_indices: None }
    }

    /// The item that an object with a string member `key` makes: the key
    /// is that string, the fields are all members of the object.
    pub fn try_from_json(id: usize, json: StructuredValue) -> (outcome: Result<Self, ItemError>)
        ensures
            match outcome {
                Ok(item) => item_fault(json) is None && is_item(item, id, json),
                Err(e) => item_fault(json) == Some(e),
            },
    {
        match json {
            StructuredValue::Object(props) => {
                let key = match props.get("key") {
                    None => {
                        return Err(ItemError::MissingKey);
                    },
                    Some(StructuredValue::Text(key)) => key.clone(),
                    Some(_) => {
                        return Err(ItemError::KeyNotText);
                    },
                };
                Ok(Item::new(id, key, props))
            },
            _ => Err(ItemError::NotAnObject),
        }
    }

    /// How this item stands to `other`.
    pub fn compare(&self, other: &Self) -> (order: Ordering)
        ensures
            order == rank_order(self.score, self.id, other.score, other.id),
    {
        rank(self.score, self.id, other.score, other.id)
    }
}

impl PartialOrd for Item {
    fn partial_cmp(&self, other: &Self) -> (order: Option<Ordering>) {
        Some(self.compare(other))
    }
}

impl vstd::std_specs::cmp::PartialOrdSpecImpl for Item {
    open spec fn obeys_partial_cmp_spec() -> bool {
        true
    }

    open spec fn partial_cmp_spec(&self, other: &Self) -> Option<Ordering> {
        Some(rank_order(self.score, self.id, other.score, other.id))
    }
}

} // verus!
