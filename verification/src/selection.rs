//! What the menu shows and what is selected: the order of the items, the
//! items that are visible, and the moves between the list and the
//! selection.

use vstd::prelude::*;
use crate::item::{is_below, lemma_below_chain, ranks_below};
use crate::matcher::{skim_match, Matcher};
use crate::menu::{is_scored, update_scores, Item};
use crate::text::{first_position, lemma_first_position_is};

verus! {

/// The ids of the items.
pub open spec fn ids(items: Seq<Item>) -> Seq<usize> {
    items.map_values(|item: Item| item.id)
}

/// Finds the first item with this id.
pub fn item_index(collection: &Vec<Item>, id: usize) -> (found: Option<usize>)
    ensures
        match found {
            Some(i) => i < collection@.len() && i == first_position(ids(collection@), id),
            None => first_position(ids(collection@), id) == collection@.len(),
        },
{
    let mut i: usize = 0;
    while i < collection.len()
        invariant
            0 <= i <= collection@.len(),
            forall|j: int| 0 <= j < i ==> ids(collection@)[j] != id,
        decreases collection@.len() - i,
    {
        if collection[i].id == id {
            proof {
                lemma_first_position_is(ids(collection@), id, i as int);
            }
            return Some(i);
        }
        i += 1;
    }
    proof {
        lemma_first_position_is(ids(collection@), id, collection@.len() as int);
    }
    None
}

/// The item with its selection mark set to `selected`.
pub open spec fn marked(item: Item, selected: bool) -> Item {
    Item {
        id: item.id,
        data: item.data,
        selected,
        score: item.score,
        match_indices: item.match_indices,
    }
}

/// The list and the selection after the item at position `at` of the list
/// was selected: it leaves the list and is the last of the selection;
/// where the selection was full, its last item makes room and is the last
/// of the list.
pub open spec fn after_select(all: Seq<Item>, selected: Seq<Item>, at: int, max: usize) -> (
    Seq<Item>,
    Seq<Item>,
) {
    let item = marked(all[at], true);
    let rest = all.remove(at);
    if selected.len() == max && selected.len() > 0 {
        (rest.push(marked(selected.last(), false)), selected.drop_last().push(item))
    } else {
        (rest, selected.push(item))
    }
}

/// Selects the first item of the list with this id. Where there is none,
/// nothing changes and the answer is `false`.
pub fn select_item(all: &mut Vec<Item>, selected: &mut Vec<Item>, id: usize, max: usize) -> (done:
    bool)
    ensures
        done == (first_position(ids(old(all)@), id) < old(all)@.len()),
        done ==> (final(all)@, final(selected)@) == after_select(
            old(all)@,
            old(selected)@,
            first_position(ids(old(all)@), id),
            max,
        ),
        !done ==> final(all)@ == old(all)@ && final(selected)@ == old(selected)@,
{
    let at = match item_index(all, id) {
        Some(at) => at,
        None => {
            return false;
        },
    };
    let mut item = all.remove(at);
    item.selected = true;
    if selected.len() == max {
        match selected.pop() {
            Some(mut old_item) => {
                old_item.selected = false;
                selected.push(item);
                all.push(old_item);
            },
            None => {
                selected.push(item);
            },
        }
    } else {
        selected.push(item);
    }
    true
}

/// The list and the selection after the item at position `at` of the
/// selection was deselected: it leaves the selection and is the last of
/// the list.
pub open spec fn after_deselect(all: Seq<Item>, selected: Seq<Item>, at: int) -> (
    Seq<Item>,
    Seq<Item>,
) {
    (all.push(marked(selected[at], false)), selected.remove(at))
}

/// Deselects the first item of the selection with this id. Where there is
/// none, nothing changes and the answer is `false`.
pub fn deselect_item(all: &mut Vec<Item>, selected: &mut Vec<Item>, id: usize) -> (done: bool)
    ensures
        done == (first_position(ids(old(selected)@), id) < old(selected)@.len()),
        done ==> (final(all)@, final(selected)@) == after_deselect(
            old(all)@,
            old(selected)@,
            first_position(ids(old(selected)@), id),
        ),
        !done ==> final(all)@ == old(all)@ && final(selected)@ == old(selected)@,
{
    let at = match item_index(selected, id) {
        Some(at) => at,
        None => {
            return false;
        },
    };
    let mut item = selected.remove(at);
    item.selected = false;
    all.push(item);
    true
}

/// Whether `a` stands below `b`: by score, an item without a score below
/// one with a score, and of two items without a score the one with the
/// greater id below the other.
pub open spec fn below(a: Item, b: Item) -> bool {
    ranks_below(a.score, a.id, b.score, b.id)
}

/// The position at which `x` enters a list: before the first item that
/// stands below it.
pub open spec fn entry_position(sorted: Seq<Item>, x: Item) -> int
    decreases sorted.len(),
{
    if sorted.len() == 0 {
        0
    } else if below(sorted[0], x) {
        0
    } else {
        1 + entry_position(sorted.drop_first(), x)
    }
}

/// The items from the highest to the lowest; items that stand beside each
/// other keep their order.
pub open spec fn ranked(items: Seq<Item>) -> Seq<Item>
    decreases items.len(),
{
    if items.len() == 0 {
        Seq::empty()
    } else {
        let before = ranked(items.drop_last());
        before.insert(entry_position(before, items.last()), items.last())
    }
}

/// Whether no item stands below a later one.
pub open spec fn descending(items: Seq<Item>) -> bool {
    forall|i: int, j: int| 0 <= i < j < items.len() ==> !below(#[trigger] items[i], #[trigger] items[j])
}

/// The entry position is the first position of an item that stands below
/// `x`, or the length where there is none.
pub proof fn lemma_entry_position(sorted: Seq<Item>, x: Item)
    ensures
        0 <= entry_position(sorted, x) <= sorted.len(),
        entry_position(sorted, x) < sorted.len() ==> below(sorted[entry_position(sorted, x)], x),
        forall|k: int| 0 <= k < entry_position(sorted, x) ==> !below(#[trigger] sorted[k], x),
    decreases sorted.len(),
{
    if sorted.len() > 0 && !below(sorted[0], x) {
        lemma_entry_position(sorted.drop_first(), x);
        assert forall|k: int| 0 <= k < entry_position(sorted, x) implies !below(
            #[trigger] sorted[k],
            x,
        ) by {
            if k > 0 {
                assert(sorted.drop_first()[k - 1] == sorted[k]);
            }
        }
    }
}

/// A position is the entry position when an item that stands below `x` is
/// there and none before.
pub proof fn lemma_entry_position_is(sorted: Seq<Item>, x: Item, p: int)
    requires
        0 <= p <= sorted.len(),
        p < sorted.len() ==> below(sorted[p], x),
        forall|k: int| 0 <= k < p ==> !below(#[trigger] sorted[k], x),
    ensures
        entry_position(sorted, x) == p,
{
    lemma_entry_position(sorted, x);
    let q = entry_position(sorted, x);
    if q < p {
        assert(!below(sorted[q], x));
    } else if p < q {
        assert(!below(sorted[p], x));
    }
}

/// An item that enters a descending list at its entry position leaves the
/// list descending.
pub proof fn lemma_insert_keeps_descending(sorted: Seq<Item>, x: Item)
    requires
        descending(sorted),
    ensures
        descending(sorted.insert(entry_position(sorted, x), x)),
{
    lemma_entry_position(sorted, x);
    let p = entry_position(sorted, x);
    let grown = sorted.insert(p, x);
    assert forall|i: int, j: int| 0 <= i < j < grown.len() implies !below(
        #[trigger] grown[i],
        #[trigger] grown[j],
    ) by {
        if j < p {
            assert(grown[i] == sorted[i] && grown[j] == sorted[j]);
        } else if j == p {
            assert(grown[i] == sorted[i]);
        } else if i < p {
            assert(grown[i] == sorted[i] && grown[j] == sorted[j - 1]);
        } else if i == p {
            assert(grown[j] == sorted[j - 1]);
            if j - 1 > p {
                assert(!below(sorted[p], sorted[j - 1]));
            }
            lemma_below_chain(
                (x.score, x.id),
                (sorted[p].score, sorted[p].id),
                (sorted[j - 1].score, sorted[j - 1].id),
            );
        } else {
            assert(grown[i] == sorted[i - 1] && grown[j] == sorted[j - 1]);
        }
    }
}

/// The ranked items are in descending order and are the same items, each
/// as often as before.
pub proof fn lemma_ranked(items: Seq<Item>)
    ensures
        descending(ranked(items)),
        ranked(items).len() == items.len(),
        ranked(items).to_multiset() == items.to_multiset(),
    decreases items.len(),
{
    if items.len() == 0 {
        assert(items =~= Seq::<Item>::empty());
    } else {
        let shorter = items.drop_last();
        lemma_ranked(shorter);
        let before = ranked(shorter);
        lemma_entry_position(before, items.last());
        lemma_insert_keeps_descending(before, items.last());
        let p = entry_position(before, items.last());
        vstd::seq_lib::to_multiset_insert(before, p, items.last());
        assert(shorter.push(items.last()) =~= items);
        vstd::seq_lib::to_multiset_build(shorter, items.last());
        assert(ranked(items) == before.insert(p, items.last()));
        assert(ranked(items).to_multiset() == shorter.to_multiset().insert(items.last()));
        assert(shorter.push(items.last()).to_multiset() == items.to_multiset());
    }
}

/// Puts the items in descending order; items that stand beside each other
/// keep their order.
pub fn sort_ranked(items: Vec<Item>) -> (sorted: Vec<Item>)
    ensures
        sorted@ == ranked(items@),
{
    let mut sorted: Vec<Item> = Vec::new();
    for item in it: items
        invariant
            it.seq() == items@,
            sorted@ == ranked(items@.subrange(0, it.index() as int)),
    {
        let ghost before = sorted@;
        let ghost done = it.index() as int;
        let mut p: usize = 0;
        while p < sorted.len() && !is_below(sorted[p].score, sorted[p].id, item.score, item.id)
            invariant
                0 <= p <= sorted@.len(),
                forall|k: int| 0 <= k < p ==> !below(#[trigger] sorted@[k], item),
            decreases sorted@.len() - p,
        {
            p += 1;
        }
        proof {
            lemma_entry_position_is(before, item, p as int);
            assert(items@.subrange(0, done + 1).drop_last() =~= items@.subrange(0, done));
            assert(items@.subrange(0, done + 1).last() == item);
        }
        sorted.insert(p, item);
    }
    assert(items@.subrange(0, items@.len() as int) =~= items@);
    sorted
}

/// The item without score and match positions.
pub open spec fn unscored(item: Item) -> Item {
    Item {
        id: item.id,
        data: item.data,
        selected: item.selected,
        score: None,
        match_indices: None,
    }
}

/// Takes score and match positions off every item.
pub fn clear_scores(items: Vec<Item>) -> (cleared: Vec<Item>)
    ensures
        cleared@ == items@.map_values(|item: Item| unscored(item)),
{
    let mut cleared: Vec<Item> = Vec::new();
    for item in it: items
        invariant
            it.seq() == items@,
            cleared@ == items@.map_values(|item: Item| unscored(item)).subrange(
                0,
                it.index() as int,
            ),
    {
        let mut plain = item;
        plain.score = None;
        plain.match_indices = None;
        cleared.push(plain);
        assert(cleared@ =~= items@.map_values(|item: Item| unscored(item)).subrange(
            0,
            it.index() + 1,
        ));
    }
    assert(items@.map_values(|item: Item| unscored(item)).subrange(0, items@.len() as int)
        =~= items@.map_values(|item: Item| unscored(item)));
    cleared
}

/// The items that have a score, in their order.
pub open spec fn scored_only(items: Seq<Item>) -> Seq<Item>
    decreases items.len(),
{
    if items.len() == 0 {
        Seq::empty()
    } else if items.last().score is Some {
        scored_only(items.drop_last()).push(items.last())
    } else {
        scored_only(items.drop_last())
    }
}

/// Keeps the items that have a score.
pub fn retain_scored(items: Vec<Item>) -> (kept: Vec<Item>)
    ensures
        kept@ == scored_only(items@),
{
    let mut kept: Vec<Item> = Vec::new();
    for item in it: items
        invariant
            it.seq() == items@,
            kept@ == scored_only(items@.subrange(0, it.index() as int)),
    {
        proof {
            let done = it.index() as int;
            assert(items@.subrange(0, done + 1).drop_last() =~= items@.subrange(0, done));
            assert(items@.subrange(0, done + 1).last() == item);
        }
        if item.score.is_some() {
            kept.push(item);
        }
    }
    assert(items@.subrange(0, items@.len() as int) =~= items@);
    kept
}

/// The least of two numbers.
pub open spec fn least(a: int, b: int) -> int {
    if a <= b {
        a
    } else {
        b
    }
}

/// What is shown of the items and the selection when at most
/// `max_visible` entries fit: the selection takes the place of the last
/// items that would fit, and what then is too long is cut off.
pub open spec fn arranged(items: Seq<Item>, selected: Seq<Item>, max_visible: int) -> Seq<Item> {
    let fitting = least(items.len() as int, max_visible);
    let head = if fitting >= selected.len() {
        fitting - selected.len()
    } else {
        0
    };
    let both = items.subrange(0, head) + selected;
    both.subrange(0, least(both.len() as int, max_visible))
}

/// Puts the items and the selection together for display.
pub fn arrange(items: Vec<Item>, selected: Vec<Item>, max_visible: usize) -> (shown: Vec<Item>)
    ensures
        shown@ == arranged(items@, selected@, max_visible as int),
{
    let fitting = if items.len() <= max_visible {
        items.len()
    } else {
        max_visible
    };
    let head = if fitting >= selected.len() {
        fitting - selected.len()
    } else {
        0
    };
    let ghost both = items@.subrange(0, head as int) + selected@;
    let ghost limit = least(both.len() as int, max_visible as int);
    let mut shown: Vec<Item> = Vec::new();
    for item in it: items
        invariant
            it.seq() == items@,
            head <= items@.len(),
            both == items@.subrange(0, head as int) + selected@,
            limit == least(both.len() as int, max_visible as int),
            shown@ == both.subrange(0, least(least(it.index() as int, head as int), limit)),
    {
        if shown.len() < head && shown.len() < max_visible {
            shown.push(item);
            assert(shown@ =~= both.subrange(0, least(least(it.index() + 1, head as int), limit)));
        } else {
            assert(shown@ =~= both.subrange(0, least(least(it.index() + 1, head as int), limit)));
        }
    }
    for item in it: selected
        invariant
            it.seq() == selected@,
            head <= items@.len(),
            both == items@.subrange(0, head as int) + selected@,
            limit == least(both.len() as int, max_visible as int),
            shown@ == both.subrange(0, least(head + it.index(), limit)),
    {
        if shown.len() < max_visible {
            shown.push(item);
            assert(shown@ =~= both.subrange(0, least(head + it.index() + 1, limit)));
        } else {
            assert(shown@ =~= both.subrange(0, least(head + it.index() + 1, limit)));
        }
    }
    shown
}

/// Whether `scored` are `items` with the match of `query` put on each.
pub open spec fn are_scored(scored: Seq<Item>, items: Seq<Item>, matcher: Matcher, query: Seq<char>) -> bool {
    &&& scored.len() == items.len()
    &&& forall|i: int|
        0 <= i < items.len() ==> is_scored(
            #[trigger] scored[i],
            items[i],
            skim_match(matcher.case, items[i].data.key@, query),
        )
}

/// Whether `shown` is what the menu shows. Items that a callback made for
/// the query are shown as they came. Other items are matched against the
/// query, those without a match are left out, and the rest is ranked; an
/// empty query matches nothing and leaves out nothing.
pub open spec fn is_visible(
    shown: Seq<Item>,
    items: Seq<Item>,
    selected: Seq<Item>,
    using_callback: bool,
    query: Seq<char>,
    matcher: Matcher,
    max_visible: int,
) -> bool {
    if using_callback {
        shown == arranged(items, selected, max_visible)
    } else if query.len() == 0 {
        shown == arranged(
            ranked(items.map_values(|item: Item| unscored(item))),
            selected,
            max_visible,
        )
    } else {
        exists|scored: Seq<Item>| #[trigger]
            are_scored(scored, items, matcher, query) && shown == arranged(
                ranked(scored_only(scored)),
                selected,
                max_visible,
            )
    }
}

/// What the menu shows of `items` and the selection for `query`.
pub fn visible_items(
    items: Vec<Item>,
    selected: Vec<Item>,
    using_callback: bool,
    query: &str,
    matcher: &Matcher,
    max_visible: usize,
) -> (shown: Vec<Item>)
    ensures
        is_visible(
            shown@,
            items@,
            selected@,
            using_callback,
            query@,
            *matcher,
            max_visible as int,
        ),
{
    if using_callback {
        return arrange(items, selected, max_visible);
    }
    if query.is_empty() {
        let cleared = clear_scores(items);
        let sorted = sort_ranked(cleared);
        return arrange(sorted, selected, max_visible);
    }
    let mut scored = items;
    update_scores(query, matcher, &mut scored);
    assert(are_scored(scored@, items@, *matcher, query@));
    let ghost witness = scored@;
    let kept = retain_scored(scored);
    let sorted = sort_ranked(kept);
    let shown = arrange(sorted, selected, max_visible);
    assert(are_scored(witness, items@, *matcher, query@) && shown@ == arranged(
        ranked(scored_only(witness)),
        selected@,
        max_visible as int,
    ));
    shown
}

/// What is handed out when the user submits: the selection, or the item
/// under the cursor where nothing is selected.
pub fn submission(selected: Vec<Item>, visible: Vec<Item>, cursor: usize) -> (chosen: Vec<Item>)
    requires
        selected@.len() == 0 ==> cursor < visible@.len(),
    ensures
        chosen@ == (if selected@.len() == 0 {
            seq![visible@[cursor as int]]
        } else {
            selected@
        }),
{
    if selected.len() == 0 {
        let mut rest = visible;
        let item = rest.remove(cursor);
        let mut chosen: Vec<Item> = Vec::new();
        chosen.push(item);
        assert(chosen@ =~= seq![visible@[cursor as int]]);
        chosen
    } else {
        selected
    }
}

} // verus!
