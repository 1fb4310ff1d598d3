use std::cmp::Ordering;

use polymenu::config::Config;
use polymenu::dictionary::Dictionary;
use polymenu::io::{IOFormat, ParseError};
use polymenu::item::{items_of, rank, Item, ItemError};
use polymenu::item_source::{read_csv, read_json, ItemSource, ItemsError};
use polymenu::value::StructuredValue;

fn strings(items: &[&str]) -> Vec<String> {
    items.iter().map(|s| s.to_string()).collect()
}

fn text(s: &str) -> StructuredValue {
    StructuredValue::Text(s.to_string())
}

fn fields(members: &[(&str, &str)]) -> Dictionary<StructuredValue> {
    let mut d = Dictionary::new();
    for (name, value) in members {
        d = d.with(name.to_string(), text(value));
    }
    d
}

fn item(id: usize, members: &[(&str, &str)], key: &str) -> Item {
    Item::new(id, key.to_string(), fields(members))
}

#[test]
fn item_from_object_with_key() {
    let json = StructuredValue::Object(fields(&[("key", "firefox"), ("icon", "ff.png")]));
    let made = Item::try_from_json(3, json);
    assert_eq!(made, Ok(item(3, &[("key", "firefox"), ("icon", "ff.png")], "firefox")));
    let made = made.unwrap();
    assert_eq!(made.score, None);
    assert_eq!(made.match_indices, None);
}

#[test]
fn item_needs_an_object_with_a_string_key() {
    assert_eq!(Item::try_from_json(0, text("x")), Err(ItemError::NotAnObject));
    assert_eq!(Item::try_from_json(0, StructuredValue::Array(Vec::new())), Err(ItemError::NotAnObject));
    assert_eq!(
        Item::try_from_json(0, StructuredValue::Object(fields(&[("name", "x")]))),
        Err(ItemError::MissingKey)
    );
    let numeric = Dictionary::new().with("key".to_string(), StructuredValue::Number("1".to_string()));
    assert_eq!(Item::try_from_json(0, StructuredValue::Object(numeric)), Err(ItemError::KeyNotText));
}

#[test]
fn items_get_their_position_as_id() {
    let values = vec![
        StructuredValue::Object(fields(&[("key", "a")])),
        StructuredValue::Object(fields(&[("key", "b")])),
    ];
    assert_eq!(items_of(values), Ok(vec![item(0, &[("key", "a")], "a"), item(1, &[("key", "b")], "b")]));
    assert_eq!(items_of(Vec::new()), Ok(Vec::new()));
    let values = vec![
        StructuredValue::Object(fields(&[("key", "a")])),
        StructuredValue::Null,
        StructuredValue::Object(fields(&[("nokey", "b")])),
    ];
    assert_eq!(items_of(values), Err(ItemError::NotAnObject));
}

#[test]
fn scored_items_rank_by_score() {
    assert_eq!(rank(Some(1), 0, Some(2), 1), Ordering::Less);
    assert_eq!(rank(Some(2), 0, Some(2), 1), Ordering::Equal);
    assert_eq!(rank(Some(3), 0, Some(2), 1), Ordering::Greater);
}

#[test]
fn scored_items_rank_above_unscored() {
    assert_eq!(rank(Some(0), 9, None, 0), Ordering::Greater);
    assert_eq!(rank(None, 0, Some(0), 9), Ordering::Less);
}

#[test]
fn unscored_items_rank_by_reverse_id() {
    assert_eq!(rank(None, 0, None, 1), Ordering::Greater);
    assert_eq!(rank(None, 1, None, 0), Ordering::Less);
    assert_eq!(rank(None, 4, None, 4), Ordering::Equal);
}

#[test]
fn item_comparison_uses_the_rank() {
    let mut a = item(0, &[], "a");
    let mut b = item(1, &[], "b");
    assert_eq!(a.compare(&b), Ordering::Greater);
    assert_eq!(a.partial_cmp(&b), Some(Ordering::Greater));
    assert!(a > b);
    b.score = Some(1);
    assert!(a < b);
    a.score = Some(5);
    assert!(a > b);
    assert_eq!(b.compare(&a), Ordering::Less);
}

#[test]
fn csv_items_have_row_ids() {
    let items = read_csv(b"key,path\nvim,/usr/bin/vim\nsh,/bin/sh\n", true, None);
    assert_eq!(
        items,
        Ok(vec![
            item(0, &[("key", "vim"), ("path", "/usr/bin/vim")], "vim"),
            item(1, &[("key", "sh"), ("path", "/bin/sh")], "sh"),
        ])
    );
}

#[test]
fn csv_items_need_a_key_column() {
    assert_eq!(read_csv(b"name\nvim\n", true, None), Err(ItemsError::Item(ItemError::MissingKey)));
    assert!(matches!(read_csv(b"a,b\nc\n", true, None), Err(ItemsError::Parse(ParseError::Csv(_)))));
}

#[test]
fn json_items_come_one_per_line() {
    let items = read_json(b"{\"key\":\"a\"}\n{\"key\":\"b\",\"x\":\"y\"}\n");
    assert_eq!(items, Ok(vec![item(0, &[("key", "a")], "a"), item(1, &[("key", "b"), ("x", "y")], "b")]));
    assert_eq!(
        read_json(b"{\"key\":\"a\"}\nnope\n"),
        Err(ItemsError::Parse(ParseError::MalformedLine("nope".to_string())))
    );
    assert_eq!(read_json(b"[1]\n"), Err(ItemsError::Item(ItemError::NotAnObject)));
}

#[test]
fn item_source_reads_in_its_format() {
    let mut config = Config::default();
    config.format = Some(IOFormat::HeadlessCsv);
    let source = ItemSource::new(&config, None);
    assert_eq!(
        source.get_items(b"vim,/usr/bin/vim\n"),
        Ok(vec![item(0, &[("key", "vim"), ("value", "/usr/bin/vim")], "vim")])
    );
    config.headers = Some(strings(&["path", "key"]));
    let source = ItemSource::new(&config, None);
    assert_eq!(
        source.get_items(b"/usr/bin/vim,vim\n"),
        Ok(vec![item(0, &[("path", "/usr/bin/vim"), ("key", "vim")], "vim")])
    );
    config.format = Some(IOFormat::Raw);
    let source = ItemSource::new(&config, None);
    assert_eq!(source.get_items(b"all of it\n"), Ok(vec![item(0, &[], "all of it\n")]));
    assert_eq!(source.get_items(&[0xff]), Err(ItemsError::Parse(ParseError::InvalidUtf8)));
    config.format = Some(IOFormat::Json);
    let source = ItemSource::new(&config, None);
    assert_eq!(source.get_items(b"{\"key\":\"k\"}"), Ok(vec![item(0, &[("key", "k")], "k")]));
    config.format = Some(IOFormat::Csv);
    config.headers = None;
    let source = ItemSource::new(&config, None);
    assert_eq!(source.get_items(b"key\nk\n"), Ok(vec![item(0, &[("key", "k")], "k")]));
}

#[test]
fn item_source_detects_the_format_of_a_file() {
    let mut config = Config::default();
    config.file = Some("items.csv".to_string());
    let source = ItemSource::new(&config, Some(&strings(&["ignored"])));
    assert_eq!(source.get_items(b"key\nk\n"), Ok(vec![item(0, &[("key", "k")], "k")]));
    config.file = Some("items.raw".to_string());
    let source = ItemSource::new(&config, None);
    assert_eq!(source.get_items(b"key\n"), Ok(vec![item(0, &[], "key\n")]));
    config.file = Some("items.txt".to_string());
    let source = ItemSource::new(&config, None);
    assert_eq!(source.get_items(b"k,v\n"), Ok(vec![item(0, &[("key", "k"), ("value", "v")], "k")]));
    config.file = None;
    let source = ItemSource::new(&config, Some(&strings(&["list-items"])));
    assert_eq!(source.get_items(b"k,v\n"), Ok(vec![item(0, &[], "k,v\n")]));
}
