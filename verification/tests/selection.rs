use polymenu::dictionary::Dictionary;
use polymenu::matcher::{new_matcher, CaseSensitivity};
use polymenu::menu::{DataError, Item, ItemData};
use polymenu::menu_source::{
    menu_items_of, read_csv, read_json, InputSource, ItemFormat, ItemSource, ItemsError,
    ItemsRequest,
};
use polymenu::selection::{
    arrange, clear_scores, deselect_item, item_index, retain_scored, select_item, sort_ranked,
    submission, visible_items,
};
use polymenu::command::Invocation;
use polymenu::io::ParseError;
use polymenu::value::StructuredValue;

fn strings(items: &[&str]) -> Vec<String> {
    items.iter().map(|s| s.to_string()).collect()
}

fn item(id: usize, key: &str) -> Item {
    Item::new(id, ItemData { key: key.to_string(), value: None, extra: Dictionary::new() })
}

fn scored(id: usize, key: &str, score: Option<u32>) -> Item {
    let mut it = item(id, key);
    it.score = score;
    it
}

fn ids(items: &[Item]) -> Vec<usize> {
    items.iter().map(|i| i.id).collect()
}

fn object(members: &[(&str, StructuredValue)]) -> StructuredValue {
    let mut d = Dictionary::new();
    for (name, value) in members {
        let copy = match value {
            StructuredValue::Text(t) => StructuredValue::Text(t.clone()),
            StructuredValue::Number(n) => StructuredValue::Number(n.clone()),
            StructuredValue::Bool(b) => StructuredValue::Bool(*b),
            _ => StructuredValue::Null,
        };
        d = d.with(name.to_string(), copy);
    }
    StructuredValue::Object(d)
}

fn text(s: &str) -> StructuredValue {
    StructuredValue::Text(s.to_string())
}

#[test]
fn item_data_from_object() {
    let json = object(&[("icon", text("i.png")), ("key", text("vim")), ("value", text("/usr/bin/vim"))]);
    let data = ItemData::try_from_json(&json).unwrap();
    assert_eq!(data.key, "vim");
    assert_eq!(data.value, Some("/usr/bin/vim".to_string()));
    assert_eq!(data.extra.len(), 1);
    assert_eq!(data.extra.get("icon"), Some(&"i.png".to_string()));
    let json = object(&[("key", text("sh"))]);
    let data = ItemData::try_from_json(&json).unwrap();
    assert_eq!(data, ItemData { key: "sh".to_string(), value: None, extra: Dictionary::new() });
}

#[test]
fn item_data_needs_text_members_and_a_key() {
    assert_eq!(ItemData::try_from_json(&text("x")), Err(DataError::NotAnObject));
    assert_eq!(ItemData::try_from_json(&object(&[("value", text("v"))])), Err(DataError::MissingKey));
    assert_eq!(
        ItemData::try_from_json(&object(&[("key", text("k")), ("n", StructuredValue::Number("1".to_string()))])),
        Err(DataError::FieldNotText("n".to_string()))
    );
    assert_eq!(
        ItemData::try_from_json(&object(&[("key", StructuredValue::Bool(true))])),
        Err(DataError::FieldNotText("key".to_string()))
    );
}

#[test]
fn menu_items_from_values() {
    let values = vec![object(&[("key", text("a"))]), object(&[("key", text("b")), ("value", text("B"))])];
    let items = menu_items_of(&values).unwrap();
    assert_eq!(items.len(), 2);
    assert_eq!(items[0], item(0, "a"));
    assert_eq!(items[1].id, 1);
    assert_eq!(items[1].data.value, Some("B".to_string()));
    let values = vec![object(&[("key", text("a"))]), text("not an object")];
    assert_eq!(menu_items_of(&values), Err(ItemsError::Data(1, DataError::NotAnObject)));
}

#[test]
fn menu_items_from_csv_and_json() {
    let items = read_csv(b"vim,/usr/bin/vim\nsh,/bin/sh\n", false, None).unwrap();
    assert_eq!(ids(&items), vec![0, 1]);
    assert_eq!(items[1].data.key, "sh");
    assert_eq!(items[1].data.value, Some("/bin/sh".to_string()));
    let items = read_csv(b"key,icon\nvim,v.png\n", true, None).unwrap();
    assert_eq!(items[0].data.extra.get("icon"), Some(&"v.png".to_string()));
    assert_eq!(items[0].data.value, None);
    assert_eq!(read_csv(b"name\nvim\n", true, None), Err(ItemsError::Data(0, DataError::MissingKey)));
    assert!(matches!(read_csv(b"a,b\nc\n", false, None), Err(ItemsError::Parse(ParseError::Csv(_)))));
    let items = read_json(b"{\"key\":\"a\"}\n{\"key\":\"b\",\"value\":\"c\"}\n").unwrap();
    assert_eq!(items[1].data.value, Some("c".to_string()));
    assert_eq!(
        read_json(b"{\"key\":1}\n"),
        Err(ItemsError::Data(0, DataError::FieldNotText("key".to_string())))
    );
    assert_eq!(
        read_json(b"{\n"),
        Err(ItemsError::Parse(ParseError::MalformedLine("{".to_string())))
    );
}

#[test]
fn menu_source_chooses_input_and_format() {
    assert_eq!(ItemFormat::default(), ItemFormat::HeadlessCsv);
    let source = ItemSource::new(None, None, None, &None);
    assert_eq!(source.request("q"), ItemsRequest::StdIn);
    assert_eq!(ids(&source.get_items(b"a,b\n").unwrap()), vec![0]);
    let source = ItemSource::new(Some("items.json"), None, Some(strings(&["ignored"])), &None);
    assert_eq!(source.request("q"), ItemsRequest::File("items.json".to_string()));
    assert_eq!(source.get_items(b"{\"key\":\"k\"}").unwrap()[0].data.key, "k");
    let source = ItemSource::new(Some("items.csv"), None, None, &Some(strings(&["key", "note"])));
    let items = source.get_items(b"k,n\n").unwrap();
    assert_eq!(items[0].data.key, "k");
    assert_eq!(items[0].data.extra.get("note"), Some(&"n".to_string()));
    let source = ItemSource::new(Some("items.csv"), Some(ItemFormat::HeadlessCsv), None, &None);
    assert_eq!(source.get_items(b"key,value\n").unwrap()[0].data.key, "key");
    let source = ItemSource::new(None, None, Some(strings(&["find", "$QUERY"])), &None);
    assert_eq!(
        source.request("needle"),
        ItemsRequest::Run(Invocation {
            program: "find".to_string(),
            arguments: strings(&["needle"]),
            stdin: None,
        })
    );
    let _ = InputSource::StdIn;
}

#[test]
fn index_of_an_item_by_id() {
    let items = vec![item(4, "a"), item(2, "b"), item(4, "c")];
    assert_eq!(item_index(&items, 4), Some(0));
    assert_eq!(item_index(&items, 2), Some(1));
    assert_eq!(item_index(&items, 9), None);
    assert_eq!(item_index(&Vec::new(), 0), None);
}

#[test]
fn selecting_moves_the_item_into_the_selection() {
    let mut all = vec![item(0, "a"), item(1, "b"), item(2, "c")];
    let mut selected: Vec<Item> = Vec::new();
    assert!(select_item(&mut all, &mut selected, 1, 2));
    assert_eq!(ids(&all), vec![0, 2]);
    assert_eq!(ids(&selected), vec![1]);
    assert!(selected[0].selected);
    assert!(select_item(&mut all, &mut selected, 0, 2));
    assert_eq!(ids(&selected), vec![1, 0]);
    assert!(!select_item(&mut all, &mut selected, 7, 2));
    assert_eq!(ids(&all), vec![2]);
    assert_eq!(ids(&selected), vec![1, 0]);
}

#[test]
fn full_selection_gives_up_its_last_item() {
    let mut all = vec![item(0, "a"), item(1, "b"), item(2, "c")];
    let mut selected: Vec<Item> = Vec::new();
    assert!(select_item(&mut all, &mut selected, 0, 1));
    assert!(select_item(&mut all, &mut selected, 2, 1));
    assert_eq!(ids(&selected), vec![2]);
    assert_eq!(ids(&all), vec![1, 0]);
    assert!(!all[1].selected);
    assert!(selected[0].selected);
}

#[test]
fn selection_without_room_still_takes_the_item() {
    let mut all = vec![item(0, "a")];
    let mut selected: Vec<Item> = Vec::new();
    assert!(select_item(&mut all, &mut selected, 0, 0));
    assert_eq!(ids(&selected), vec![0]);
    assert!(all.is_empty());
}

#[test]
fn deselecting_moves_the_item_back() {
    let mut all = vec![item(0, "a")];
    let mut selected: Vec<Item> = Vec::new();
    assert!(select_item(&mut all, &mut selected, 0, 3));
    all.push(item(5, "e"));
    assert!(deselect_item(&mut all, &mut selected, 0));
    assert_eq!(ids(&all), vec![5, 0]);
    assert!(!all[1].selected);
    assert!(selected.is_empty());
    assert!(!deselect_item(&mut all, &mut selected, 0));
    assert_eq!(ids(&all), vec![5, 0]);
}

#[test]
fn ranking_is_descending_and_stable() {
    let items = vec![
        scored(0, "a", Some(5)),
        scored(1, "b", None),
        scored(2, "c", Some(9)),
        scored(3, "d", Some(5)),
        scored(4, "e", None),
        scored(5, "f", Some(1)),
    ];
    let sorted = sort_ranked(items);
    assert_eq!(ids(&sorted), vec![2, 0, 3, 5, 1, 4]);
    assert_eq!(ids(&sort_ranked(Vec::new())), Vec::<usize>::new());
    assert_eq!(ids(&sort_ranked(vec![item(3, "x"), item(1, "y"), item(2, "z")])), vec![1, 2, 3]);
}

#[test]
fn ranking_agrees_with_a_stable_std_sort() {
    let make = || {
        vec![
            scored(7, "a", Some(2)),
            scored(1, "b", Some(2)),
            scored(3, "c", None),
            scored(0, "d", Some(8)),
            scored(9, "e", None),
            scored(4, "f", Some(0)),
            scored(2, "g", Some(8)),
        ]
    };
    let mut expected = make();
    expected.sort_by(|a, b| b.compare(a));
    assert_eq!(ids(&sort_ranked(make())), ids(&expected));
}

#[test]
fn scores_are_cleared_and_filtered() {
    let mut with_indices = scored(0, "a", Some(1));
    with_indices.match_indices = Some(vec![0]);
    let cleared = clear_scores(vec![with_indices, scored(1, "b", None)]);
    assert_eq!(cleared, vec![item(0, "a"), item(1, "b")]);
    let kept = retain_scored(vec![scored(0, "a", Some(0)), scored(1, "b", None), scored(2, "c", Some(3))]);
    assert_eq!(ids(&kept), vec![0, 2]);
}

#[test]
fn arrangement_leaves_room_for_the_selection() {
    let items = || vec![item(0, "a"), item(1, "b"), item(2, "c"), item(3, "d")];
    let selection = || vec![item(8, "s"), item(9, "t")];
    assert_eq!(ids(&arrange(items(), Vec::new(), 3)), vec![0, 1, 2]);
    assert_eq!(ids(&arrange(items(), selection(), 3)), vec![0, 8, 9]);
    assert_eq!(ids(&arrange(items(), selection(), 10)), vec![0, 1, 8, 9]);
    assert_eq!(ids(&arrange(items(), selection(), 1)), vec![8]);
    assert_eq!(ids(&arrange(items(), selection(), 0)), Vec::<usize>::new());
    assert_eq!(ids(&arrange(Vec::new(), selection(), 5)), vec![8, 9]);
    assert_eq!(ids(&arrange(vec![item(0, "a")], selection(), 5)), vec![8, 9]);
}

#[test]
fn visible_items_are_matched_and_ranked() {
    let matcher = new_matcher(CaseSensitivity::Smart);
    let items = || vec![item(0, "firefox"), item(1, "vim"), item(2, "fi")];
    let shown = visible_items(items(), Vec::new(), false, "fi", &matcher, 10);
    assert_eq!(shown.len(), 2);
    assert!(shown.iter().all(|i| i.score.is_some()));
    assert!(shown[0].score >= shown[1].score);
    let shown = visible_items(items(), Vec::new(), false, "", &matcher, 10);
    assert_eq!(ids(&shown), vec![0, 1, 2]);
    assert!(shown.iter().all(|i| i.score.is_none()));
    let shown = visible_items(items(), vec![item(9, "kept")], false, "zzz", &matcher, 10);
    assert_eq!(ids(&shown), vec![9]);
    let shown = visible_items(vec![item(2, "b"), item(1, "a")], Vec::new(), true, "anything", &matcher, 1);
    assert_eq!(ids(&shown), vec![2]);
}

#[test]
fn submission_is_the_selection_or_the_item_under_the_cursor() {
    let visible = || vec![item(0, "a"), item(1, "b")];
    assert_eq!(ids(&submission(Vec::new(), visible(), 1)), vec![1]);
    assert_eq!(ids(&submission(vec![item(5, "s")], visible(), 1)), vec![5]);
    assert_eq!(ids(&submission(vec![item(5, "s")], Vec::new(), 0)), vec![5]);
}
