use polymenu::highlight::{contains_index, highlight, Chunk};

fn chunk(text: &str, matched: bool) -> Chunk {
    Chunk { text: text.to_string(), matched }
}

#[test]
fn key_is_cut_into_matched_and_unmatched_runs() {
    assert_eq!(
        highlight("firefox", &vec![0, 1, 6]),
        vec![chunk("fi", true), chunk("refo", false), chunk("x", true)]
    );
    assert_eq!(highlight("vim", &vec![1]), vec![chunk("v", false), chunk("i", true), chunk("m", false)]);
}

#[test]
fn key_without_match_is_one_run() {
    assert_eq!(highlight("vim", &Vec::new()), vec![chunk("vim", false)]);
    assert_eq!(highlight("vim", &vec![0, 1, 2]), vec![chunk("vim", true)]);
    assert_eq!(highlight("vim", &vec![7, 9]), vec![chunk("vim", false)]);
    assert_eq!(highlight("", &vec![0]), Vec::<Chunk>::new());
}

#[test]
fn positions_count_characters_not_bytes() {
    assert_eq!(
        highlight("äöü", &vec![1]),
        vec![chunk("ä", false), chunk("ö", true), chunk("ü", false)]
    );
    assert_eq!(highlight("a", &vec![0, 0]), vec![chunk("a", true)]);
}

#[test]
fn chunks_put_together_are_the_key() {
    let key = "some longer key";
    let chunks = highlight(key, &vec![2, 3, 5, 11, 14]);
    let joined: String = chunks.iter().map(|c| c.text.as_str()).collect();
    assert_eq!(joined, key);
    for pair in chunks.windows(2) {
        assert_ne!(pair[0].matched, pair[1].matched);
    }
    assert!(contains_index(&vec![2, 3], 3));
    assert!(!contains_index(&vec![2, 3], 4));
}
