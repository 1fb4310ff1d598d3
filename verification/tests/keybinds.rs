use polymenu::keybinds::{action_for, is_bound, key_eq, to_ascii_lowercase, Action, Key};

fn strings(items: &[&str]) -> Vec<String> {
    items.iter().map(|s| s.to_string()).collect()
}

fn key(name: &str, shift: bool, alt: bool, ctrl: bool, superkey: bool) -> Key {
    Key { key: name.to_string(), shift, alt, ctrl, superkey }
}

#[test]
fn lowercase_touches_ascii_capitals_only() {
    assert_eq!(to_ascii_lowercase("Ctrl+ÄZ az09"), "ctrl+Äz az09");
    assert_eq!(to_ascii_lowercase(""), "");
    assert_eq!(to_ascii_lowercase("ABCXYZ[@`{"), "abcxyz[@`{");
}

#[test]
fn lowercase_agrees_with_std() {
    let samples: [&str; 4] = ["Hello World", "ÀÉ Straße", "TAB", "{}~^_"];
    for sample in samples {
        assert_eq!(to_ascii_lowercase(sample), sample.to_ascii_lowercase());
    }
}

#[test]
fn key_from_names_reads_modifiers() {
    assert_eq!(Key::from_names(strings(&["Ctrl", "Shift", "P"])), Some(key("p", true, false, true, false)));
    assert_eq!(Key::from_names(strings(&["enter"])), Some(key("enter", false, false, false, false)));
    assert_eq!(
        Key::from_names(strings(&["SUPER", "alt", "Tab"])),
        Some(key("tab", false, true, false, true))
    );
}

#[test]
fn key_from_names_takes_the_last_key() {
    assert_eq!(Key::from_names(strings(&["a", "ctrl", "b"])), Some(key("b", false, false, true, false)));
    assert_eq!(Key::from_names(strings(&["a", "b", "shift"])), Some(key("b", true, false, false, false)));
}

#[test]
fn key_from_names_needs_a_key() {
    assert_eq!(Key::from_names(strings(&[])), None);
    assert_eq!(Key::from_names(strings(&["ctrl", "Shift"])), None);
}

#[test]
fn key_into_names_lists_held_modifiers() {
    assert_eq!(key("p", true, false, true, false).into_names(), strings(&["p", "shift", "ctrl"]));
    assert_eq!(key("x", false, false, false, false).into_names(), strings(&["x"]));
    assert_eq!(
        key("x", true, true, true, true).into_names(),
        strings(&["x", "shift", "alt", "ctrl", "super"])
    );
}

#[test]
fn key_names_round_trip() {
    let keys = [key("p", true, false, true, false), key("escape", false, true, false, true)];
    for k in keys {
        assert_eq!(Key::from_names(k.clone().into_names()), Some(k));
    }
}

#[test]
fn actions_are_distinct() {
    let actions = [
        Action::CursorPrevious,
        Action::CursorNext,
        Action::ToggleSelection,
        Action::Submit,
        Action::Close,
    ];
    for (i, a) in actions.iter().enumerate() {
        for (j, b) in actions.iter().enumerate() {
            assert_eq!(a == b, i == j);
        }
    }
}

#[test]
fn action_of_the_first_binding_is_found() {
    let keymap = vec![
        (Action::Submit, vec![key("enter", false, false, false, false)]),
        (Action::Close, vec![key("escape", false, false, false, false), key("c", false, false, true, false)]),
        (Action::CursorNext, vec![key("c", false, false, true, false), key("down", false, false, false, false)]),
    ];
    assert_eq!(action_for(&keymap, &key("enter", false, false, false, false)), Some(Action::Submit));
    assert_eq!(action_for(&keymap, &key("c", false, false, true, false)), Some(Action::Close));
    assert_eq!(action_for(&keymap, &key("down", false, false, false, false)), Some(Action::CursorNext));
    assert_eq!(action_for(&keymap, &key("c", false, false, false, false)), None);
    assert_eq!(action_for(&keymap, &key("Enter", false, false, false, false)), None);
    assert_eq!(action_for(&Vec::new(), &key("enter", false, false, false, false)), None);
    assert!(key_eq(&key("a", true, false, false, true), &key("a", true, false, false, true)));
    assert!(!key_eq(&key("a", true, false, false, true), &key("a", true, false, false, false)));
    assert!(is_bound(&keymap[1].1, &key("escape", false, false, false, false)));
    assert!(!is_bound(&keymap[0].1, &key("escape", false, false, false, false)));
}
