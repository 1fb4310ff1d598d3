//! Text helpers shared by the other modules: the few `std` string calls
//! that the verifier has no contract for, and searches over characters.

use vstd::prelude::*;
use vstd::slice::slice_subrange;
use vstd::utf8::{decode_utf8, valid_utf8};

verus! {

/// The character sequences of a list of strings.
pub open spec fn texts(items: Seq<String>) -> Seq<Seq<char>> {
    items.map_values(|s: String| s@)
}

/// The character sequence of a string that may be absent.
pub open spec fn optional_text(item: Option<String>) -> Option<Seq<char>> {
    match item {
        Some(s) => Some(s@),
        None => None,
    }
}

/// The character sequences of a list of strings that may be absent.
pub open spec fn optional_texts(items: Option<Vec<String>>) -> Option<Seq<Seq<char>>> {
    match items {
        Some(list) => Some(texts(list@)),
        None => None,
    }
}

/// Compares two string slices with `str::eq`: they are equal when their
/// character sequences are.
#[verifier::external_body]
pub(crate) fn text_eq(a: &str, b: &str) -> (same: bool)
    ensures
        same == (a@ == b@),
{
    a == b
}

/// Collects `str::chars`: the characters of `s`, in order.
#[verifier::external_body]
pub(crate) fn chars_of(s: &str) -> (chars: Vec<char>)
    ensures
        chars@ == s@,
{
    s.chars().collect()
}

/// Collects characters into a `String` with `String::from_iter`: the
/// string made of them, in order.
#[verifier::external_body]
pub(crate) fn text_of(chars: &[char]) -> (s: String)
    ensures
        s@ == chars@,
{
    chars.iter().collect()
}

/// Decodes bytes with `String::from_utf8`: the text that the bytes encode,
/// where they are valid UTF-8.
#[verifier::external_body]
pub(crate) fn utf8_text(bytes: &[u8]) -> (text: Option<String>)
    ensures
        text is Some == valid_utf8(bytes@),
        text matches Some(s) ==> s@ == decode_utf8(bytes@),
{
    String::from_utf8(bytes.to_vec()).ok()
}

/// The least position of `c` in `s`, or the length of `s` where `c` does
/// not occur.
pub open spec fn first_position<T>(s: Seq<T>, c: T) -> int
    decreases s.len(),
{
    if s.len() == 0 {
        0
    } else if s[0] == c {
        0
    } else {
        1 + first_position(s.drop_first(), c)
    }
}

/// `first_position` is the least position of `c`, or the length.
pub proof fn lemma_first_position<T>(s: Seq<T>, c: T)
    ensures
        0 <= first_position(s, c) <= s.len(),
        first_position(s, c) < s.len() ==> s[first_position(s, c)] == c,
        forall|j: int| 0 <= j < first_position(s, c) ==> s[j] != c,
    decreases s.len(),
{
    if s.len() > 0 && s[0] != c {
        lemma_first_position(s.drop_first(), c);
        assert forall|j: int| 0 <= j < first_position(s, c) implies s[j] != c by {
            if j > 0 {
                assert(s.drop_first()[j - 1] == s[j]);
            }
        }
    }
}

/// A position is the first one of `c` when `c` stands there and nowhere
/// before.
pub proof fn lemma_first_position_is<T>(s: Seq<T>, c: T, i: int)
    requires
        0 <= i <= s.len(),
        i < s.len() ==> s[i] == c,
        forall|j: int| 0 <= j < i ==> s[j] != c,
    ensures
        first_position(s, c) == i,
{
    lemma_first_position(s, c);
    let p = first_position(s, c);
    if p < i {
        assert(s[p] != c);
    } else if i < p {
        assert(s[i] != c);
    }
}

/// The greatest position of `c` in `s`, or -1 where `c` does not occur.
pub open spec fn last_position<T>(s: Seq<T>, c: T) -> int
    decreases s.len(),
{
    if s.len() == 0 {
        -1
    } else if s.last() == c {
        s.len() - 1
    } else {
        last_position(s.drop_last(), c)
    }
}

/// `last_position` is the greatest position of `c`, or -1.
pub proof fn lemma_last_position<T>(s: Seq<T>, c: T)
    ensures
        -1 <= last_position(s, c) < s.len(),
        0 <= last_position(s, c) ==> s[last_position(s, c)] == c,
        forall|j: int| last_position(s, c) < j < s.len() ==> s[j] != c,
    decreases s.len(),
{
    if s.len() > 0 && s.last() != c {
        lemma_last_position(s.drop_last(), c);
        assert forall|j: int| last_position(s, c) < j < s.len() implies s[j] != c by {
            if j < s.len() - 1 {
                assert(s.drop_last()[j] == s[j]);
            }
        }
    }
}

/// A position is the last one of `c` when `c` stands there and nowhere
/// behind.
pub proof fn lemma_last_position_is<T>(s: Seq<T>, c: T, i: int)
    requires
        -1 <= i < s.len(),
        0 <= i ==> s[i] == c,
        forall|j: int| i < j < s.len() ==> s[j] != c,
    ensures
        last_position(s, c) == i,
{
    lemma_last_position(s, c);
    let p = last_position(s, c);
    if p < i {
        assert(s[i] == c);
    } else if i < p {
        assert(s[p] == c);
    }
}

/// The position of the first result that is an error, or the length where
/// none is.
pub open spec fn first_error<A, B>(results: Seq<Result<A, B>>) -> int
    decreases results.len(),
{
    if results.len() == 0 {
        0
    } else if results[0] is Err {
        0
    } else {
        1 + first_error(results.drop_first())
    }
}

/// `first_error` is the least position of an error, or the length.
pub proof fn lemma_first_error<A, B>(results: Seq<Result<A, B>>)
    ensures
        0 <= first_error(results) <= results.len(),
        first_error(results) < results.len() ==> results[first_error(results)] is Err,
        forall|j: int| 0 <= j < first_error(results) ==> results[j] is Ok,
    decreases results.len(),
{
    if results.len() > 0 && results[0] is Ok {
        lemma_first_error(results.drop_first());
        assert forall|j: int| 0 <= j < first_error(results) implies results[j] is Ok by {
            if j > 0 {
                assert(results.drop_first()[j - 1] == results[j]);
            }
        }
    }
}

/// A position is the first error when an error stands there and none
/// before.
pub proof fn lemma_first_error_is<A, B>(results: Seq<Result<A, B>>, i: int)
    requires
        0 <= i <= results.len(),
        i < results.len() ==> results[i] is Err,
        forall|j: int| 0 <= j < i ==> results[j] is Ok,
    ensures
        first_error(results) == i,
{
    lemma_first_error(results);
    let p = first_error(results);
    if p < i {
        assert(results[p] is Ok);
    } else if i < p {
        assert(results[i] is Ok);
    }
}

/// Finds the first `c` among `chars`.
pub fn find_first(chars: &[char], c: char) -> (found: Option<usize>)
    ensures
        match found {
            Some(i) => i < chars@.len() && i == first_position(chars@, c),
            None => first_position(chars@, c) == chars@.len(),
        },
{
    let mut i: usize = 0;
    while i < chars.len()
        invariant
            0 <= i <= chars@.len(),
            forall|j: int| 0 <= j < i ==> chars@[j] != c,
        decreases chars@.len() - i,
    {
        if chars[i] == c {
            proof {
                lemma_first_position_is(chars@, c, i as int);
            }
            return Some(i);
        }
        i += 1;
    }
    proof {
        lemma_first_position_is(chars@, c, chars@.len() as int);
    }
    None
}

/// Finds the last `c` among `chars`.
pub fn find_last(chars: &[char], c: char) -> (found: Option<usize>)
    ensures
        match found {
            Some(i) => i < chars@.len() && i == last_position(chars@, c),
            None => last_position(chars@, c) == -1,
        },
{
    let mut i: usize = chars.len();
    while i > 0
        invariant
            0 <= i <= chars@.len(),
            forall|j: int| i <= j < chars@.len() ==> chars@[j] != c,
        decreases i,
    {
        i -= 1;
        if chars[i] == c {
            proof {
                lemma_last_position_is(chars@, c, i as int);
            }
            return Some(i);
        }
    }
    proof {
        lemma_last_position_is(chars@, c, -1);
    }
    None
}

/// The string made of the characters from `from` up to `to`.
pub fn sub_text(chars: &[char], from: usize, to: usize) -> (s: String)
    requires
        from <= to <= chars@.len(),
    ensures
        s@ == chars@.subrange(from as int, to as int),
{
    text_of(slice_subrange(chars, from, to))
}

/// What `split_once` makes of `s`: the parts before and behind the first
/// `delimiter`, where there is one.
pub open spec fn split_once_spec(s: Seq<char>, delimiter: char) -> Option<(Seq<char>, Seq<char>)> {
    let at = first_position(s, delimiter);
    if at < s.len() {
        Some((s.subrange(0, at), s.subrange(at + 1, s.len() as int)))
    } else {
        None
    }
}

/// Splits `s` at the first `delimiter`, which belongs to neither part.
pub fn split_once(s: &str, delimiter: char) -> (parts: Option<(String, String)>)
    ensures
        match (parts, split_once_spec(s@, delimiter)) {
            (Some((head, tail)), Some((h, t))) => head@ == h && tail@ == t,
            (None, None) => true,
            _ => false,
        },
{
    let owned = chars_of(s);
    let chars = owned.as_slice();
    let end = chars.len();
    match find_first(chars, delimiter) {
        Some(at) => {
            let head = sub_text(chars, 0, at);
            let tail = sub_text(chars, at + 1, end);
            Some((head, tail))
        },
        None => None,
    }
}

/// A copy of a list of strings.
pub fn copy_texts(items: &Vec<String>) -> (copy: Vec<String>)
    ensures
        copy@ == items@,
{
    let mut copy: Vec<String> = Vec::new();
    let mut i: usize = 0;
    while i < items.len()
        invariant
            0 <= i <= items@.len(),
            copy@ == items@.subrange(0, i as int),
        decreases items@.len() - i,
    {
        copy.push(items[i].clone());
        assert(copy@ =~= items@.subrange(0, i + 1));
        i += 1;
    }
    assert(items@.subrange(0, items@.len() as int) =~= items@);
    copy
}

/// A copy of a list of strings that may be absent.
pub fn copy_optional_texts(items: &Option<Vec<String>>) -> (copy: Option<Vec<String>>)
    ensures
        match (copy, *items) {
            (Some(c), Some(list)) => c@ == list@,
            (None, None) => true,
            _ => false,
        },
{
    match items {
        Some(list) => Some(copy_texts(list)),
        None => None,
    }
}

/// A copy of a byte string.
pub fn copy_bytes(bytes: &[u8], from: usize, to: usize) -> (copy: Vec<u8>)
    requires
        from <= to <= bytes@.len(),
    ensures
        copy@ == bytes@.subrange(from as int, to as int),
{
    vstd::slice::slice_to_vec(slice_subrange(bytes, from, to))
}

} // verus!
