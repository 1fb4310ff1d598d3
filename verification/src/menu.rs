//! The menu that the front end shows: its items, their scores, the cursor,
//! and what is printed for the items that were chosen.

use std::cmp::Ordering;
use vstd::prelude::*;
use crate::dictionary::Dictionary;
use crate::item::{rank, rank_order};
use crate::text::text_eq;
use crate::value::StructuredValue;
use crate::matcher::{indices_of, indices_view, score_of, skim_match, Matcher};

verus! {

/// What an item holds: its key, the value that is printed for it where it
/// has one, and any further fields.
#[derive(Debug, PartialEq, Eq)]
pub struct ItemData {
    pub key: String,
    pub value: Option<String>,
    pub extra: Dictionary<String>,
}

/// An item of the menu.
#[derive(Debug, PartialEq, Eq)]
pub struct Item {
    pub id: usize,
    pub data: ItemData,
    pub selected: bool,
    pub score: Option<u32>,
    pub match_indices: Option<Vec<usize>>,
}

impl Item {
    /// An item that is neither selected nor matched.
    pub fn new(id: usize, data: ItemData) -> (item: Self)
        ensures
            item.id == id,
            item.data == data,
            !item.selected,
            item.score is None,
            item.match_indices is None,
    {
        Item { id, data, selected: false, score: None, match_indices: None }
    }

    /// How this item stands to `other`.
    pub fn compare(&self, other: &Self) -> (order: Ordering)
        ensures
            order == rank_order(self.score, self.id, other.score, other.id),
    {
        rank(self.score, self.id, other.score, other.id)
    }

    /// What is printed for this item: its value where it has one, else
    /// its key.
    pub open spec fn output(self) -> Seq<char> {
        match self.data.value {
            Some(value) => value@,
            None => self.data.key@,
        }
    }
}

impl PartialOrd for Item {
    fn partial_cmp(&self, other: &Self) -> (order: Option<Ordering>) {
        Some(self.compare(other))
    }
}

impl vstd::std_specs::cmp::PartialOrdSpecImpl for Item {
    open spec fn obeys_partial_cmp_spec() -> bool {
        true
    }

    open spec fn partial_cmp_spec(&self, other: &Self) -> Option<Ordering> {
        Some(rank_order(self.score, self.id, other.score, other.id))
    }
}

/// Whether `after` is `before` with the match `found` put on it and
/// nothing else changed.
pub open spec fn is_scored(after: Item, before: Item, found: Option<(i64, Seq<usize>)>) -> bool {
    &&& after.id == before.id
    &&& after.data == before.data
    &&& after.selected == before.selected
    &&& after.score == score_of(found)
    &&& indices_view(after.match_indices) == indices_of(found)
}

/// Puts a match on an item: score and positions where the query matched,
/// neither where it did not.
pub fn apply_match(item: Item, found: Option<(i64, Vec<usize>)>) -> (scored: Item)
    ensures
        is_scored(
            scored,
            item,
            match found {
                Some((score, indices)) => Some((score, indices@)),
                None => None,
            },
        ),
{
    let mut scored = item;
    match found {
        Some((score, indices)) => {
            scored.score = Some(
                #[verifier::truncate]
                (score as u32),
            );
            scored.match_indices = Some(indices);
        },
        None => {
            scored.score = None;
            scored.match_indices = None;
        },
    }
    scored
}

/// Matches `query` against the key of every item and puts the match on
/// it. The items keep their order.
pub fn update_scores(query: &str, matcher: &Matcher, items: &mut Vec<Item>)
    ensures
        final(items)@.len() == old(items)@.len(),
        forall|i: int|
            0 <= i < old(items)@.len() ==> is_scored(
                #[trigger] final(items)@[i],
                old(items)@[i],
                skim_match(matcher.case, old(items)@[i].data.key@, query@),
            ),
{
    let ghost before = items@;
    let mut stack: Vec<Item> = Vec::new();
    while items.len() > 0
        invariant
            items@.len() + stack@.len() == before.len(),
            items@ == before.subrange(0, items@.len() as int),
            forall|k: int|
                0 <= k < stack@.len() ==> is_scored(
                    #[trigger] stack@[k],
                    before[before.len() - 1 - k],
                    skim_match(matcher.case, before[before.len() - 1 - k].data.key@, query@),
                ),
        decreases items@.len(),
    {
        let item = items.pop().unwrap();
        let found = matcher.fuzzy_indices(item.data.key.as_str(), query);
        let scored = apply_match(item, found);
        stack.push(scored);
    }
    while stack.len() > 0
        invariant
            items@.len() + stack@.len() == before.len(),
            forall|k: int|
                0 <= k < stack@.len() ==> is_scored(
                    #[trigger] stack@[k],
                    before[before.len() - 1 - k],
                    skim_match(matcher.case, before[before.len() - 1 - k].data.key@, query@),
                ),
            forall|i: int|
                0 <= i < items@.len() ==> is_scored(
                    #[trigger] items@[i],
                    before[i],
                    skim_match(matcher.case, before[i].data.key@, query@),
                ),
        decreases stack@.len(),
    {
        let ghost top = stack@.len() - 1;
        let scored = stack.pop().unwrap();
        assert(before.len() - 1 - top == items@.len());
        items.push(scored);
    }
}

/// What is printed for each item.
pub open spec fn outputs(items: Seq<Item>) -> Seq<Seq<char>> {
    items.map_values(|item: Item| item.output())
}

/// The text that is printed for the chosen items: for each its value, or
/// its key where it has no value, on a line of its own.
pub fn output_items(items: &Vec<Item>) -> (text: String)
    ensures
        text@ == crate::command::joined(outputs(items@), seq!['\n']),
{
    let mut text = String::new();
    let mut i: usize = 0;
    while i < items.len()
        invariant
            0 <= i <= items@.len(),
            text@ == crate::command::joined(outputs(items@).subrange(0, i as int), seq!['\n']),
        decreases items@.len() - i,
    {
        let ghost before = outputs(items@).subrange(0, i as int);
        let ghost after = outputs(items@).subrange(0, i + 1);
        proof {
            assert(after.drop_last() =~= before);
            assert(after.last() == items@[i as int].output());
            reveal_strlit("\n");
            assert("\n"@ =~= seq!['\n']);
        }
        if i > 0 {
            text.append("\n");
        }
        match &items[i].data.value {
            Some(value) => text.append(value.as_str()),
            None => text.append(items[i].data.key.as_str()),
        }
        proof {
            if i == 0 {
                assert(text@ =~= items@[0].output());
            }
        }
        i += 1;
    }
    assert(outputs(items@).subrange(0, items@.len() as int) =~= outputs(items@));
    text
}

/// The position of the cursor after a step up in a menu of `count` items:
/// one less, and from the top to the bottom.
pub fn cursor_previous(position: usize, count: usize) -> (next: usize)
    requires
        count > 0,
    ensures
        next == (if position == 0 {
            count - 1
        } else {
            position - 1
        }),
{
    if position == 0 {
        count - 1
    } else {
        position - 1
    }
}

/// The position of the cursor after a step down in a menu of `count`
/// items: one more, and from the bottom to the top.
pub fn cursor_next(position: usize, count: usize) -> (next: usize)
    requires
        position < usize::MAX,
    ensures
        next == (if position + 1 == count {
            0
        } else {
            position + 1
        }),
{
    if position + 1 == count {
        0
    } else {
        position + 1
    }
}

/// Why a value holds no item data.
#[derive(Debug, Clone, PartialEq, Eq)]
pub enum DataError {
    /// The value is not an object.
    NotAnObject,
    /// The object has no member `key`.
    MissingKey,
    /// The member of this name is not a string.
    FieldNotText(String),
}

/// Whether every one of the first `n` members is a string.
pub open spec fn all_text(members: Seq<(Seq<char>, StructuredValue)>, n: int) -> bool {
    forall|i: int| 0 <= i < n ==> (#[trigger] members[i]).1 is Text
}

/// Whether `data` holds the members of an object whose members are all
/// strings: `key` as the key, `value` as the value where there is one, and
/// every other member among the further fields.
pub open spec fn holds_members(data: ItemData, members: Map<Seq<char>, StructuredValue>) -> bool {
    &&& members.contains_key("key"@)
    &&& members["key"@].is_text(data.key@)
    &&& match data.value {
        Some(value) => members.contains_key("value"@) && members["value"@].is_text(value@),
        None => !members.contains_key("value"@),
    }
    &&& forall|name: Seq<char>|
        data.extra@.contains_key(name) <==> (members.contains_key(name) && name != "key"@ && name
            != "value"@)
    &&& forall|name: Seq<char>|
        data.extra@.contains_key(name) ==> members[name].is_text((#[trigger] data.extra@[name])@)
}

impl ItemData {
    /// The data that an object makes whose members are all strings and
    /// which has a member `key`.
    pub fn try_from_json(json: &StructuredValue) -> (outcome: Result<ItemData, DataError>)
        ensures
            match outcome {
                Ok(data) => {
                    &&& json matches StructuredValue::Object(props)
                    &&& all_text(props.pairs(), props.pairs().len() as int)
                    &&& holds_members(data, props@)
                },
                Err(DataError::NotAnObject) => !(json is Object),
                Err(DataError::MissingKey) => {
                    &&& json matches StructuredValue::Object(props)
                    &&& all_text(props.pairs(), props.pairs().len() as int)
                    &&& !props@.contains_key("key"@)
                },
                Err(DataError::FieldNotText(name)) => {
                    &&& json matches StructuredValue::Object(props)
                    &&& exists|i: int|
                        0 <= i < props.pairs().len() && all_text(props.pairs(), i)
                            && #[trigger] props.pairs()[i].0 == name@ && !(props.pairs()[i].1
                            is Text)
                },
            },
    {
        let props = match json {
            StructuredValue::Object(props) => props,
            _ => {
                return Err(DataError::NotAnObject);
            },
        };
        let count = props.len();
        let mut key: Option<String> = None;
        let mut value: Option<String> = None;
        let mut extra: Dictionary<String> = Dictionary::new();
        let mut i: usize = 0;
        proof {
            lemma_literals_differ();
        }
        while i < count
            invariant
                0 <= i <= count,
                count == props.pairs().len(),
                *json == StructuredValue::Object(*props),
                crate::dictionary::distinct_keys(props.pairs()),
                "key"@ != "value"@,
                all_text(props.pairs(), i as int),
                match key {
                    Some(text) => exists|j: int|
                        0 <= j < i && #[trigger] props.pairs()[j].0 == "key"@
                            && props.pairs()[j].1.is_text(text@),
                    None => forall|j: int| 0 <= j < i ==> (#[trigger] props.pairs()[j]).0 != "key"@,
                },
                match value {
                    Some(text) => exists|j: int|
                        0 <= j < i && #[trigger] props.pairs()[j].0 == "value"@
                            && props.pairs()[j].1.is_text(text@),
                    None => forall|j: int|
                        0 <= j < i ==> (#[trigger] props.pairs()[j]).0 != "value"@,
                },
                forall|name: Seq<char>|
                    extra@.contains_key(name) <==> (name != "key"@ && name != "value"@ && exists|
                        j: int,
                    |
                        0 <= j < i && #[trigger] props.pairs()[j].0 == name),
                forall|name: Seq<char>|
                    extra@.contains_key(name) ==> exists|j: int|
                        0 <= j < i && #[trigger] props.pairs()[j].0 == name
                            && props.pairs()[j].1.is_text((#[trigger] extra@[name])@),
            decreases count - i,
        {
            let name = props.key_at(i);
            let member = props.value_at(i);
            let text = match member {
                StructuredValue::Text(text) => text.clone(),
                _ => {
                    let bad = String::from_str(name);
                    assert(props.pairs()[i as int].0 == bad@ && !(props.pairs()[i as int].1
                        is Text));
                    assert(json matches StructuredValue::Object(p) && p == *props);
                    return Err(DataError::FieldNotText(bad));
                },
            };
            let ghost before = extra@;
            if text_eq(name, "key") {
                key = Some(text);
            } else if text_eq(name, "value") {
                value = Some(text);
            } else {
                extra = extra.with(String::from_str(name), text);
            }
            proof {
                let at = i as int;
                assert(props.pairs()[at].0 == name@);
                assert forall|n: Seq<char>|
                    extra@.contains_key(n) <==> (n != "key"@ && n != "value"@ && exists|j: int|
                        0 <= j < i + 1 && #[trigger] props.pairs()[j].0 == n) by {
                    if before.contains_key(n) {
                        let j = choose|j: int| 0 <= j < i && #[trigger] props.pairs()[j].0 == n;
                        assert(props.pairs()[j].0 == n);
                    }
                    if n != "key"@ && n != "value"@ && exists|j: int|
                        0 <= j < i + 1 && #[trigger] props.pairs()[j].0 == n {
                        let j = choose|j: int| 0 <= j < i + 1 && #[trigger] props.pairs()[j].0 == n;
                        if j < i {
                            assert(props.pairs()[j].0 == n);
                        }
                    }
                }
                assert forall|n: Seq<char>| extra@.contains_key(n) implies exists|j: int|
                    0 <= j < i + 1 && #[trigger] props.pairs()[j].0 == n
                        && props.pairs()[j].1.is_text((#[trigger] extra@[n])@) by {
                    if n == name@ && extra@ != before {
                        assert(props.pairs()[at].0 == n);
                    } else {
                        assert(before.contains_key(n));
                        let j = choose|j: int|
                            0 <= j < i && #[trigger] props.pairs()[j].0 == n
                                && props.pairs()[j].1.is_text(before[n]@);
                        assert(props.pairs()[j].0 == n);
                    }
                }
                if key is Some {
                    let t = key->Some_0;
                    if name@ == "key"@ {
                        assert(props.pairs()[at].0 == "key"@);
                    } else {
                        let j = choose|j: int|
                            0 <= j < i && #[trigger] props.pairs()[j].0 == "key"@
                                && props.pairs()[j].1.is_text(t@);
                        assert(props.pairs()[j].0 == "key"@);
                    }
                }
                if value is Some {
                    let t = value->Some_0;
                    if name@ == "value"@ {
                        assert(props.pairs()[at].0 == "value"@);
                    } else {
                        let j = choose|j: int|
                            0 <= j < i && #[trigger] props.pairs()[j].0 == "value"@
                                && props.pairs()[j].1.is_text(t@);
                        assert(props.pairs()[j].0 == "value"@);
                    }
                }
            }
            i += 1;
        }
        proof {
            lemma_members(props.pairs());
        }
        match key {
            None => {
                proof {
                    if props@.contains_key("key"@) {
                        let j = crate::dictionary::position_of(props.pairs(), "key"@);
                        assert(props.pairs()[j].0 == "key"@);
                    }
                }
                Err(DataError::MissingKey)
            },
            Some(key) => {
                let data = ItemData { key, value, extra };
                proof {
                    let members = props@;
                    let pairs = props.pairs();
                    let kj = choose|j: int|
                        0 <= j < count && #[trigger] pairs[j].0 == "key"@ && pairs[j].1.is_text(
                            data.key@,
                        );
                    crate::dictionary::lemma_entry_in_map(pairs, kj);
                    if data.value is Some {
                        let v = data.value->Some_0;
                        let vj = choose|j: int|
                            0 <= j < count && #[trigger] pairs[j].0 == "value"@
                                && pairs[j].1.is_text(v@);
                        crate::dictionary::lemma_entry_in_map(pairs, vj);
                    } else if members.contains_key("value"@) {
                        let j = crate::dictionary::position_of(pairs, "value"@);
                        assert(pairs[j].0 == "value"@);
                    }
                    assert forall|name: Seq<char>|
                        data.extra@.contains_key(name) <==> (members.contains_key(name) && name
                            != "key"@ && name != "value"@) by {
                        if members.contains_key(name) {
                            let j = crate::dictionary::position_of(pairs, name);
                            assert(pairs[j].0 == name);
                        }
                        if data.extra@.contains_key(name) {
                            let j = choose|j: int| 0 <= j < count && #[trigger] pairs[j].0 == name;
                            crate::dictionary::lemma_entry_in_map(pairs, j);
                        }
                    }
                    assert forall|name: Seq<char>| data.extra@.contains_key(name) implies members[name].is_text(
                        (#[trigger] data.extra@[name])@,
                    ) by {
                        let j = choose|j: int|
                            0 <= j < count && #[trigger] pairs[j].0 == name && pairs[j].1.is_text(
                                data.extra@[name]@,
                            );
                        crate::dictionary::lemma_entry_in_map(pairs, j);
                    }
                }
                Ok(data)
            },
        }
    }
}

/// The names `key` and `value` differ.
pub proof fn lemma_literals_differ()
    ensures
        "key"@ != "value"@,
{
    reveal_strlit("key");
    reveal_strlit("value");
    assert("key"@.len() == 3);
    assert("value"@.len() == 5);
}

/// A name is a key of the map exactly when an entry has it.
pub proof fn lemma_members<V>(pairs: Seq<(Seq<char>, V)>)
    ensures
        forall|name: Seq<char>|
            crate::dictionary::as_map(pairs).contains_key(name) <==> crate::dictionary::has_key(
                pairs,
                name,
            ),
{
}

} // verus!
