use std::cmp::Ordering;

use polymenu::dictionary::Dictionary;
use polymenu::menu::{apply_match, cursor_next, cursor_previous, output_items, Item, ItemData};

fn data(key: &str, value: Option<&str>) -> ItemData {
    ItemData { key: key.to_string(), value: value.map(|v| v.to_string()), extra: Dictionary::new() }
}

#[test]
fn new_menu_item_is_plain() {
    let item = Item::new(4, data("k", Some("v")));
    assert_eq!(item.id, 4);
    assert_eq!(item.data, data("k", Some("v")));
    assert!(!item.selected);
    assert_eq!(item.score, None);
    assert_eq!(item.match_indices, None);
}

#[test]
fn menu_items_compare_by_score_then_reverse_id() {
    let mut a = Item::new(0, data("a", None));
    let mut b = Item::new(1, data("b", None));
    assert_eq!(a.compare(&b), Ordering::Greater);
    b.score = Some(0);
    assert_eq!(a.compare(&b), Ordering::Less);
    assert!(a < b);
    a.score = Some(0);
    assert_eq!(a.compare(&b), Ordering::Equal);
}

#[test]
fn menu_match_keeps_selection() {
    let mut item = Item::new(0, data("a", None));
    item.selected = true;
    let scored = apply_match(item, Some((9, vec![0])));
    assert!(scored.selected);
    assert_eq!(scored.score, Some(9));
    assert_eq!(scored.match_indices, Some(vec![0]));
}

#[test]
fn output_prefers_the_value() {
    let items = vec![
        Item::new(0, data("firefox", Some("/usr/bin/firefox"))),
        Item::new(1, data("vim", None)),
        Item::new(2, data("sh", Some(""))),
    ];
    assert_eq!(output_items(&items), "/usr/bin/firefox\nvim\n");
    assert_eq!(output_items(&Vec::new()), "");
    assert_eq!(output_items(&vec![Item::new(0, data("only", None))]), "only");
}

#[test]
fn cursor_wraps_around() {
    assert_eq!(cursor_previous(0, 5), 4);
    assert_eq!(cursor_previous(3, 5), 2);
    assert_eq!(cursor_previous(0, 1), 0);
    assert_eq!(cursor_next(4, 5), 0);
    assert_eq!(cursor_next(0, 5), 1);
    assert_eq!(cursor_next(0, 1), 0);
}
