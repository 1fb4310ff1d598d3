//! Fuzzy matching of a query against the keys of the items. The scoring is
//! that of the `fuzzy_matcher` crate; this module applies it.

use vstd::prelude::*;
use crate::item::Item;

verus! {

/// How the case of letters bears on a match.
#[derive(Debug, Clone, Copy, PartialEq, Eq, Structural)]
pub enum CaseSensitivity {
    /// Case matters where the query holds a capital.
    Smart,
    /// Case matters.
    Respect,
    /// Case does not matter.
    Ignore,
}

impl Default for CaseSensitivity {
    fn default() -> (case: Self)
        ensures
            case == CaseSensitivity::Smart,
    {
        CaseSensitivity::Smart
    }
}

/// A matcher: the scoring of `fuzzy_matcher::skim::SkimMatcherV2` with one
/// way of treating case.
#[derive(Debug, Clone, Copy, PartialEq, Eq, Structural)]
pub struct Matcher {
    pub case: CaseSensitivity,
}

/// What `SkimMatcherV2::fuzzy_indices` makes of `choice` and `pattern`
/// with a matcher that is as `SkimMatcherV2::default` makes it but for the
/// way it treats case: nothing where the pattern does not match, else the
/// score and the positions of the matched characters.
pub uninterp spec fn skim_match(
    case: CaseSensitivity,
    choice: Seq<char>,
    pattern: Seq<char>,
) -> Option<(i64, Seq<usize>)>;

/// Whether `found` is the match `expected`.
pub open spec fn is_match(found: Option<(i64, Vec<usize>)>, expected: Option<(i64, Seq<usize>)>) -> bool {
    match expected {
        Some((score, indices)) => found matches Some((s, i)) && s == score && i@ == indices,
        None => found is None,
    }
}

/// Calls `fuzzy_indices` on `SkimMatcherV2::default().smart_case()`. The
/// contract names the result.
#[verifier::external_body]
fn smart_indices(choice: &str, pattern: &str) -> (found: Option<(i64, Vec<usize>)>)
    ensures
        is_match(found, skim_match(CaseSensitivity::Smart, choice@, pattern@)),
{
    fuzzy_matcher::FuzzyMatcher::fuzzy_indices(
        &fuzzy_matcher::skim::SkimMatcherV2::default().smart_case(),
        choice,
        pattern,
    )
}

/// Calls `fuzzy_indices` on `SkimMatcherV2::default().respect_case()`. The
/// contract names the result.
#[verifier::external_body]
fn respecting_indices(choice: &str, pattern: &str) -> (found: Option<(i64, Vec<usize>)>)
    ensures
        is_match(found, skim_match(CaseSensitivity::Respect, choice@, pattern@)),
{
    fuzzy_matcher::FuzzyMatcher::fuzzy_indices(
        &fuzzy_matcher::skim::SkimMatcherV2::default().respect_case(),
        choice,
        pattern,
    )
}

/// Calls `fuzzy_indices` on `SkimMatcherV2::default().ignore_case()`. The
/// contract names the result.
#[verifier::external_body]
fn ignoring_indices(choice: &str, pattern: &str) -> (found: Option<(i64, Vec<usize>)>)
    ensures
        is_match(found, skim_match(CaseSensitivity::Ignore, choice@, pattern@)),
{
    fuzzy_matcher::FuzzyMatcher::fuzzy_indices(
        &fuzzy_matcher::skim::SkimMatcherV2::default().ignore_case(),
        choice,
        pattern,
    )
}

/// The matcher that treats case as `case` says.
pub fn new_matcher(case: CaseSensitivity) -> (matcher: Matcher)
    ensures
        matcher.case == case,
{
    Matcher { case }
}

impl Matcher {
    /// Matches `pattern` against `choice`.
    pub fn fuzzy_indices(&self, choice: &str, pattern: &str) -> (found: Option<(i64, Vec<usize>)>)
        ensures
            is_match(found, skim_match(self.case, choice@, pattern@)),
    {
        match self.case {
            CaseSensitivity::Smart => smart_indices(choice, pattern),
            CaseSensitivity::Respect => respecting_indices(choice, pattern),
            CaseSensitivity::Ignore => ignoring_indices(choice, pattern),
        }
    }
}

/// The score that an item gets for a match: the matcher's score, cut to 32
/// bits.
pub open spec fn score_of(found: Option<(i64, Seq<usize>)>) -> Option<u32> {
    match found {
        Some((score, _)) => Some(score as u32),
        None => None,
    }
}

/// The positions that an item gets for a match.
pub open spec fn indices_of(found: Option<(i64, Seq<usize>)>) -> Option<Seq<usize>> {
    match found {
        Some((_, indices)) => Some(indices),
        None => None,
    }
}

/// The positions of an item as a sequence.
pub open spec fn indices_view(indices: Option<Vec<usize>>) -> Option<Seq<usize>> {
    match indices {
        Some(list) => Some(list@),
        None => None,
    }
}

/// Whether `after` is `before` with the match `found` put on it and
/// nothing else changed.
pub open spec fn is_scored(after: Item, before: Item, found: Option<(i64, Seq<usize>)>) -> bool {
    &&& after.id == before.id
    &&& after.key == before.key
    &&& after.fields == before.fields
    &&& after.score == score_of(found)
    &&& indices_view(after.match_indices) == indices_of(found)
}

/// Puts a match on an item: score and positions where the query matched,
/// neither where it did not.
pub fn apply_match(item: Item, found: Option<(i64, Vec<usize>)>) -> (scored: Item)
    ensures
        is_scored(
            scored,
            item,
            match found {
                Some((score, indices)) => Some((score, indices@)),
                None => None,
            },
        ),
{
    let mut scored = item;
    match found {
        Some((score, indices)) => {
            scored.score = Some(
                #[verifier::truncate]
                (score as u32),
            );
            scored.match_indices = Some(indices);
        },
        None => {
            scored.score = None;
            scored.match_indices = None;
        },
    }
    scored
}

/// Matches `query` against the key of every item and puts the match on
/// it. The items keep their order.
pub fn update_scores(query: &str, matcher: &Matcher, items: &mut Vec<Item>)
    ensures
        final(items)@.len() == old(items)@.len(),
        forall|i: int|
            0 <= i < old(items)@.len() ==> is_scored(
                #[trigger] final(items)@[i],
                old(items)@[i],
                skim_match(matcher.case, old(items)@[i].key@, query@),
            ),
{
    let ghost before = items@;
    let mut stack: Vec<Item> = Vec::new();
    while items.len() > 0
        invariant
            items@.len() + stack@.len() == before.len(),
            items@ == before.subrange(0, items@.len() as int),
            forall|k: int|
                0 <= k < stack@.len() ==> is_scored(
                    #[trigger] stack@[k],
                    before[before.len() - 1 - k],
                    skim_match(matcher.case, before[before.len() - 1 - k].key@, query@),
                ),
        decreases items@.len(),
    {
        let item = items.pop().unwrap();
        let found = matcher.fuzzy_indices(item.key.as_str(), query);
        let scored = apply_match(item, found);
        stack.push(scored);
    }
    while stack.len() > 0
        invariant
            items@.len() + stack@.len() == before.len(),
            forall|k: int|
                0 <= k < stack@.len() ==> is_scored(
                    #[trigger] stack@[k],
                    before[before.len() - 1 - k],
                    skim_match(matcher.case, before[before.len() - 1 - k].key@, query@),
                ),
            forall|i: int|
                0 <= i < items@.len() ==> is_scored(
                    #[trigger] items@[i],
                    before[i],
                    skim_match(matcher.case, before[i].key@, query@),
                ),
        decreases stack@.len(),
    {
        let ghost top = stack@.len() - 1;
        let scored = stack.pop().unwrap();
        assert(before.len() - 1 - top == items@.len());
        items.push(scored);
    }
}

} // verus!
