use polymenu::dictionary::Dictionary;
use polymenu::item::Item;
use polymenu::matcher::{apply_match, new_matcher, update_scores, CaseSensitivity, Matcher};
use polymenu::menu;

fn item(id: usize, key: &str) -> Item {
    Item::new(id, key.to_string(), Dictionary::new())
}

#[test]
fn default_case_is_smart() {
    assert_eq!(CaseSensitivity::default(), CaseSensitivity::Smart);
    assert_eq!(new_matcher(CaseSensitivity::Ignore), Matcher { case: CaseSensitivity::Ignore });
}

#[test]
fn matcher_finds_the_positions_of_the_pattern() {
    let matcher = new_matcher(CaseSensitivity::Smart);
    let found = matcher.fuzzy_indices("firefox", "ffx");
    let (score, indices) = found.unwrap();
    assert!(score > 0);
    assert_eq!(indices.len(), 3);
    assert_eq!(indices[0], 0);
    assert_eq!(indices[2], 6);
    assert_eq!(matcher.fuzzy_indices("firefox", "zz"), None);
    assert_eq!(matcher.fuzzy_indices("firefox", ""), Some((0, Vec::new())));
}

#[test]
fn case_modes_differ() {
    let smart = new_matcher(CaseSensitivity::Smart);
    let respect = new_matcher(CaseSensitivity::Respect);
    let ignore = new_matcher(CaseSensitivity::Ignore);
    assert!(smart.fuzzy_indices("Firefox", "fire").is_some());
    assert!(smart.fuzzy_indices("firefox", "Fire").is_none());
    assert!(respect.fuzzy_indices("Firefox", "fire").is_none());
    assert!(respect.fuzzy_indices("Firefox", "Fire").is_some());
    assert!(ignore.fuzzy_indices("firefox", "FIRE").is_some());
}

#[test]
fn apply_match_sets_or_clears() {
    let scored = apply_match(item(1, "vim"), Some((42, vec![0, 2])));
    assert_eq!(scored.score, Some(42));
    assert_eq!(scored.match_indices, Some(vec![0, 2]));
    assert_eq!(scored.id, 1);
    assert_eq!(scored.key, "vim");
    let cleared = apply_match(scored, None);
    assert_eq!(cleared.score, None);
    assert_eq!(cleared.match_indices, None);
}

#[test]
fn apply_match_cuts_the_score_to_32_bits() {
    let scored = apply_match(item(0, "x"), Some((-1, Vec::new())));
    assert_eq!(scored.score, Some(u32::MAX));
    let scored = apply_match(item(0, "x"), Some(((1i64 << 32) + 7, Vec::new())));
    assert_eq!(scored.score, Some(7));
}

#[test]
fn update_scores_keeps_the_order() {
    let matcher = new_matcher(CaseSensitivity::Smart);
    let mut items = vec![item(0, "firefox"), item(1, "vim"), item(2, "files")];
    update_scores("fi", &matcher, &mut items);
    assert_eq!(items.len(), 3);
    assert_eq!(items[0].key, "firefox");
    assert_eq!(items[1].key, "vim");
    assert_eq!(items[2].key, "files");
    assert!(items[0].score.is_some());
    assert_eq!(items[1].score, None);
    assert_eq!(items[1].match_indices, None);
    assert_eq!(items[2].match_indices, Some(vec![0, 1]));
    update_scores("vim", &matcher, &mut items);
    assert_eq!(items[0].score, None);
    assert!(items[1].score.is_some());
    let mut none: Vec<Item> = Vec::new();
    update_scores("x", &matcher, &mut none);
    assert!(none.is_empty());
}

#[test]
fn menu_items_are_scored_by_key() {
    let matcher = new_matcher(CaseSensitivity::Ignore);
    let data = |key: &str| menu::ItemData { key: key.to_string(), value: None, extra: Dictionary::new() };
    let mut items = vec![menu::Item::new(0, data("Alpha")), menu::Item::new(1, data("beta"))];
    menu::update_scores("AL", &matcher, &mut items);
    assert_eq!(items[0].data.key, "Alpha");
    assert_eq!(items[0].match_indices, Some(vec![0, 1]));
    assert_eq!(items[1].score, None);
}

#[test]
fn matcher_takes_empty_and_unusual_text() {
    for case in [CaseSensitivity::Smart, CaseSensitivity::Respect, CaseSensitivity::Ignore] {
        let matcher = new_matcher(case);
        assert_eq!(matcher.fuzzy_indices("", "a"), None);
        assert_eq!(matcher.fuzzy_indices("", ""), Some((0, Vec::new())));
        assert!(matcher.fuzzy_indices("äöü ß", "ö").is_some());
        assert_eq!(matcher.fuzzy_indices("ab", "abc"), None);
        let (_, indices) = matcher.fuzzy_indices("héllo wörld", "lw").unwrap();
        assert_eq!(indices.len(), 2);
    }
}
