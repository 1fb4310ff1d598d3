//! Key bindings: the actions of the menu and the keys that are bound to
//! them.

use vstd::prelude::*;
use crate::text::{chars_of, text_eq, text_of, texts};

verus! {

/// What a key can do.
#[derive(Debug, Clone, Copy, PartialEq, Eq, Hash, Structural)]
pub enum Action {
    CursorPrevious,
    CursorNext,
    ToggleSelection,
    Submit,
    Close,
}

/// A key with the modifiers that are held with it.
#[derive(Debug, Clone, PartialEq, Eq, Hash)]
pub struct Key {
    pub key: String,
    pub shift: bool,
    pub alt: bool,
    pub ctrl: bool,
    pub superkey: bool,
}

/// The lower-case form of an ASCII capital; any other character as it is.
pub open spec fn lower(c: char) -> char {
    if 'A' <= c && c <= 'Z' {
        ((c as u8 + 32) as u8) as char
    } else {
        c
    }
}

/// The text with every ASCII capital in lower case.
pub open spec fn lowered(s: Seq<char>) -> Seq<char> {
    s.map_values(|c: char| lower(c))
}

/// Puts every ASCII capital of `s` in lower case.
pub fn to_ascii_lowercase(s: &str) -> (low: String)
    ensures
        low@ == lowered(s@),
{
    let chars = chars_of(s);
    let mut out: Vec<char> = Vec::new();
    let mut i: usize = 0;
    while i < chars.len()
        invariant
            0 <= i <= chars@.len(),
            out@ == lowered(chars@).subrange(0, i as int),
        decreases chars@.len() - i,
    {
        let c = chars[i];
        let low = if 'A' <= c && c <= 'Z' {
            ((c as u8) + 32) as char
        } else {
            c
        };
        out.push(low);
        assert(out@ =~= lowered(chars@).subrange(0, i + 1));
        i += 1;
    }
    assert(lowered(chars@).subrange(0, chars@.len() as int) =~= lowered(chars@));
    text_of(out.as_slice())
}

/// Whether `name`, in lower case, names a modifier.
pub open spec fn is_modifier(name: Seq<char>) -> bool {
    name == "shift"@ || name == "alt"@ || name == "ctrl"@ || name == "super"@
}

/// Whether one of `names`, in lower case, is `modifier`.
pub open spec fn holds(names: Seq<Seq<char>>, modifier: Seq<char>) -> bool {
    exists|i: int| 0 <= i < names.len() && lowered(#[trigger] names[i]) == modifier
}

/// The last of `names` that is no modifier, in lower case.
pub open spec fn key_name(names: Seq<Seq<char>>) -> Option<Seq<char>>
    decreases names.len(),
{
    if names.len() == 0 {
        None
    } else if !is_modifier(lowered(names.last())) {
        Some(lowered(names.last()))
    } else {
        key_name(names.drop_last())
    }
}

/// The names of a key: the key itself, then `shift`, `alt`, `ctrl` and
/// `super`, each where it is held.
pub open spec fn names_of(key: Key) -> Seq<Seq<char>> {
    seq![key.key@] + (if key.shift {
        seq!["shift"@]
    } else {
        Seq::empty()
    }) + (if key.alt {
        seq!["alt"@]
    } else {
        Seq::empty()
    }) + (if key.ctrl {
        seq!["ctrl"@]
    } else {
        Seq::empty()
    }) + (if key.superkey {
        seq!["super"@]
    } else {
        Seq::empty()
    })
}

impl Key {
    /// The key that a list of names stands for. Case does not matter;
    /// `shift`, `alt`, `ctrl` and `super` are modifiers, and the last
    /// other name is the key. A list without such a name stands for no
    /// key.
    pub fn from_names(value: Vec<String>) -> (found: Option<Key>)
        ensures
            match found {
                Some(key) => {
                    &&& key_name(texts(value@)) == Some(key.key@)
                    &&& key.shift == holds(texts(value@), "shift"@)
                    &&& key.alt == holds(texts(value@), "alt"@)
                    &&& key.ctrl == holds(texts(value@), "ctrl"@)
                    &&& key.superkey == holds(texts(value@), "super"@)
                },
                None => key_name(texts(value@)) is None,
            },
    {
        let mut key: Option<String> = None;
        let mut shift = false;
        let mut alt = false;
        let mut ctrl = false;
        let mut superkey = false;
        let mut i: usize = 0;
        while i < value.len()
            invariant
                0 <= i <= value@.len(),
                crate::text::optional_text(key) == key_name(texts(value@).subrange(0, i as int)),
                shift == holds(texts(value@).subrange(0, i as int), "shift"@),
                alt == holds(texts(value@).subrange(0, i as int), "alt"@),
                ctrl == holds(texts(value@).subrange(0, i as int), "ctrl"@),
                superkey == holds(texts(value@).subrange(0, i as int), "super"@),
            decreases value@.len() - i,
        {
            let ghost before = texts(value@).subrange(0, i as int);
            let ghost after = texts(value@).subrange(0, i + 1);
            let name = to_ascii_lowercase(value[i].as_str());
            proof {
                assert(after.drop_last() =~= before);
                assert(after.last() == value@[i as int]@);
                lemma_holds_extends(before, value@[i as int]@, "shift"@);
                lemma_holds_extends(before, value@[i as int]@, "alt"@);
                lemma_holds_extends(before, value@[i as int]@, "ctrl"@);
                lemma_holds_extends(before, value@[i as int]@, "super"@);
                assert(before.push(value@[i as int]@) =~= after);
                lemma_modifiers_differ();
            }
            if text_eq(name.as_str(), "shift") {
                shift = true;
            } else if text_eq(name.as_str(), "alt") {
                alt = true;
            } else if text_eq(name.as_str(), "ctrl") {
                ctrl = true;
            } else if text_eq(name.as_str(), "super") {
                superkey = true;
            } else {
                key = Some(name);
            }
            i += 1;
        }
        assert(texts(value@).subrange(0, value@.len() as int) =~= texts(value@));
        match key {
            Some(key) => Some(Key { key, shift, alt, ctrl, superkey }),
            None => None,
        }
    }

    /// The names of this key.
    pub fn into_names(self) -> (names: Vec<String>)
        ensures
            texts(names@) == names_of(self),
    {
        let mut names: Vec<String> = Vec::new();
        names.push(self.key);
        if self.shift {
            names.push(String::from_str("shift"));
        }
        if self.alt {
            names.push(String::from_str("alt"));
        }
        if self.ctrl {
            names.push(String::from_str("ctrl"));
        }
        if self.superkey {
            names.push(String::from_str("super"));
        }
        assert(texts(names@) =~= names_of(self));
        names
    }
}

/// The names of the four modifiers differ from each other.
pub proof fn lemma_modifiers_differ()
    ensures
        "shift"@ != "alt"@,
        "shift"@ != "ctrl"@,
        "shift"@ != "super"@,
        "alt"@ != "ctrl"@,
        "alt"@ != "super"@,
        "ctrl"@ != "super"@,
{
    reveal_strlit("shift");
    reveal_strlit("alt");
    reveal_strlit("ctrl");
    reveal_strlit("super");
    assert("shift"@.len() == 5);
    assert("alt"@.len() == 3);
    assert("ctrl"@.len() == 4);
    assert("super"@.len() == 5);
    assert("shift"@[1] == 'h');
    assert("super"@[1] == 'u');
}

/// One more name holds a modifier when it is that modifier or the names
/// before held it.
pub proof fn lemma_holds_extends(names: Seq<Seq<char>>, name: Seq<char>, modifier: Seq<char>)
    ensures
        holds(names.push(name), modifier) == (holds(names, modifier) || lowered(name) == modifier),
{
    let longer = names.push(name);
    if holds(names, modifier) {
        let i = choose|i: int| 0 <= i < names.len() && lowered(#[trigger] names[i]) == modifier;
        assert(lowered(longer[i]) == modifier);
    }
    if lowered(name) == modifier {
        assert(lowered(longer[names.len() as int]) == modifier);
    }
    if holds(longer, modifier) {
        let i = choose|i: int| 0 <= i < longer.len() && lowered(#[trigger] longer[i]) == modifier;
        if i < names.len() {
            assert(lowered(names[i]) == modifier);
        }
    }
}

/// Whether two keys are the same key with the same modifiers.
pub open spec fn same_key(a: Key, b: Key) -> bool {
    &&& a.key@ == b.key@
    &&& a.shift == b.shift
    &&& a.alt == b.alt
    &&& a.ctrl == b.ctrl
    &&& a.superkey == b.superkey
}

/// Whether one of `keys` is `key`.
pub open spec fn binds(keys: Seq<Key>, key: Key) -> bool {
    exists|i: int| 0 <= i < keys.len() && same_key(#[trigger] keys[i], key)
}

/// Whether two keys are the same.
pub fn key_eq(a: &Key, b: &Key) -> (same: bool)
    ensures
        same == same_key(*a, *b),
{
    text_eq(a.key.as_str(), b.key.as_str()) && a.shift == b.shift && a.alt == b.alt && a.ctrl
        == b.ctrl && a.superkey == b.superkey
}

/// Whether one of `keys` is `key`.
pub fn is_bound(keys: &Vec<Key>, key: &Key) -> (bound: bool)
    ensures
        bound == binds(keys@, *key),
{
    let mut i: usize = 0;
    while i < keys.len()
        invariant
            0 <= i <= keys@.len(),
            forall|j: int| 0 <= j < i ==> !same_key(#[trigger] keys@[j], *key),
        decreases keys@.len() - i,
    {
        if key_eq(&keys[i], key) {
            return true;
        }
        i += 1;
    }
    false
}

/// The action that `key` is bound to: the one of the first binding that
/// holds the key.
pub fn action_for(keymap: &Vec<(Action, Vec<Key>)>, key: &Key) -> (found: Option<Action>)
    ensures
        match found {
            Some(action) => exists|i: int|
                0 <= i < keymap@.len() && (#[trigger] keymap@[i]).0 == action && binds(
                    keymap@[i].1@,
                    *key,
                ) && forall|j: int| 0 <= j < i ==> !binds((#[trigger] keymap@[j]).1@, *key),
            None => forall|j: int| 0 <= j < keymap@.len() ==> !binds((#[trigger] keymap@[j]).1@, *key),
        },
{
    let mut i: usize = 0;
    while i < keymap.len()
        invariant
            0 <= i <= keymap@.len(),
            forall|j: int| 0 <= j < i ==> !binds((#[trigger] keymap@[j]).1@, *key),
        decreases keymap@.len() - i,
    {
        if is_bound(&keymap[i].1, key) {
            return Some(keymap[i].0);
        }
        i += 1;
    }
    None
}

/// The names of the modifiers are in lower case already.
pub proof fn lemma_modifiers_are_lower()
    ensures
        lowered("shift"@) == "shift"@,
        lowered("alt"@) == "alt"@,
        lowered("ctrl"@) == "ctrl"@,
        lowered("super"@) == "super"@,
{
    reveal_strlit("shift");
    reveal_strlit("alt");
    reveal_strlit("ctrl");
    reveal_strlit("super");
    assert(lowered("shift"@) =~= "shift"@);
    assert(lowered("alt"@) =~= "alt"@);
    assert(lowered("ctrl"@) =~= "ctrl"@);
    assert(lowered("super"@) =~= "super"@);
}

/// The names of a key stand for that key again, where the key is in lower
/// case and is no modifier.
pub proof fn lemma_names_round_trip(key: Key)
    requires
        lowered(key.key@) == key.key@,
        !is_modifier(key.key@),
    ensures
        key_name(names_of(key)) == Some(key.key@),
        holds(names_of(key), "shift"@) == key.shift,
        holds(names_of(key), "alt"@) == key.alt,
        holds(names_of(key), "ctrl"@) == key.ctrl,
        holds(names_of(key), "super"@) == key.superkey,
{
    lemma_modifiers_are_lower();
    lemma_modifiers_differ();
    let first = seq![key.key@];
    let with_shift = if key.shift {
        first.push("shift"@)
    } else {
        first
    };
    let with_alt = if key.alt {
        with_shift.push("alt"@)
    } else {
        with_shift
    };
    let with_ctrl = if key.ctrl {
        with_alt.push("ctrl"@)
    } else {
        with_alt
    };
    let all = if key.superkey {
        with_ctrl.push("super"@)
    } else {
        with_ctrl
    };
    assert(names_of(key) =~= all);
    assert(first =~= Seq::<Seq<char>>::empty().push(key.key@));
    lemma_holds_extends(Seq::empty(), key.key@, "shift"@);
    lemma_holds_extends(Seq::empty(), key.key@, "alt"@);
    lemma_holds_extends(Seq::empty(), key.key@, "ctrl"@);
    lemma_holds_extends(Seq::empty(), key.key@, "super"@);
    lemma_key_name_extends(Seq::empty(), key.key@);
    assert(key_name(Seq::<Seq<char>>::empty()) is None);
    if key.shift {
        lemma_holds_extends(first, "shift"@, "shift"@);
        lemma_holds_extends(first, "shift"@, "alt"@);
        lemma_holds_extends(first, "shift"@, "ctrl"@);
        lemma_holds_extends(first, "shift"@, "super"@);
        lemma_key_name_extends(first, "shift"@);
    }
    if key.alt {
        lemma_holds_extends(with_shift, "alt"@, "shift"@);
        lemma_holds_extends(with_shift, "alt"@, "alt"@);
        lemma_holds_extends(with_shift, "alt"@, "ctrl"@);
        lemma_holds_extends(with_shift, "alt"@, "super"@);
        lemma_key_name_extends(with_shift, "alt"@);
    }
    if key.ctrl {
        lemma_holds_extends(with_alt, "ctrl"@, "shift"@);
        lemma_holds_extends(with_alt, "ctrl"@, "alt"@);
        lemma_holds_extends(with_alt, "ctrl"@, "ctrl"@);
        lemma_holds_extends(with_alt, "ctrl"@, "super"@);
        lemma_key_name_extends(with_alt, "ctrl"@);
    }
    if key.superkey {
        lemma_holds_extends(with_ctrl, "super"@, "shift"@);
        lemma_holds_extends(with_ctrl, "super"@, "alt"@);
        lemma_holds_extends(with_ctrl, "super"@, "ctrl"@);
        lemma_holds_extends(with_ctrl, "super"@, "super"@);
        lemma_key_name_extends(with_ctrl, "super"@);
    }
}

/// One more name is the key where it is no modifier; else the key stays.
pub proof fn lemma_key_name_extends(names: Seq<Seq<char>>, name: Seq<char>)
    ensures
        key_name(names.push(name)) == (if is_modifier(lowered(name)) {
            key_name(names)
        } else {
            Some(lowered(name))
        }),
{
    assert(names.push(name).drop_last() =~= names);
}

} // verus!
