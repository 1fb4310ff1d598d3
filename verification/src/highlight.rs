//! The parts of a key that a query matched and the parts between them, as
//! the menu shows them.

use vstd::prelude::*;
use crate::text::{chars_of, sub_text};

verus! {

/// A run of characters of a key that were all matched, or all not.
#[derive(Debug, Clone, PartialEq, Eq)]
pub struct Chunk {
    pub text: String,
    pub matched: bool,
}

/// Whether the character at position `at` was matched.
pub open spec fn is_matched(indices: Seq<usize>, at: int) -> bool {
    exists|k: int| 0 <= k < indices.len() && #[trigger] indices[k] == at
}

/// The texts of the chunks, one after the other.
pub open spec fn chunk_text(chunks: Seq<Chunk>) -> Seq<char>
    decreases chunks.len(),
{
    if chunks.len() == 0 {
        Seq::empty()
    } else {
        chunk_text(chunks.drop_last()) + chunks.last().text@
    }
}

/// Whether the chunks cut `key` into its runs: together they are the key,
/// none is empty, each holds characters that were all matched or all not
/// and says which, and no two neighbours say the same.
pub open spec fn is_chunking(chunks: Seq<Chunk>, key: Seq<char>, indices: Seq<usize>) -> bool {
    &&& chunk_text(chunks) == key
    &&& forall|k: int| 0 <= k < chunks.len() ==> (#[trigger] chunks[k]).text@.len() > 0
    &&& forall|k: int|
        0 <= k < chunks.len() - 1 ==> (#[trigger] chunks[k]).matched != chunks[k + 1].matched
    &&& forall|k: int, i: int|
        0 <= k < chunks.len() && 0 <= i < chunks[k].text@.len() ==> is_matched(
            indices,
            #[trigger] position_in_key(chunks, k, i),
        ) == chunks[k].matched
}

/// The position in the key of the character at position `i` of chunk `k`.
pub open spec fn position_in_key(chunks: Seq<Chunk>, k: int, i: int) -> int {
    chunk_text(chunks.subrange(0, k)).len() + i
}

/// Whether `at` is one of the positions.
pub fn contains_index(indices: &Vec<usize>, at: usize) -> (found: bool)
    ensures
        found == is_matched(indices@, at as int),
{
    let mut k: usize = 0;
    while k < indices.len()
        invariant
            0 <= k <= indices@.len(),
            forall|j: int| 0 <= j < k ==> indices@[j] != at,
        decreases indices@.len() - k,
    {
        if indices[k] == at {
            return true;
        }
        k += 1;
    }
    false
}

/// Chunks that all but the last stay when one is added keep their texts.
proof fn lemma_chunk_text_prefix(chunks: Seq<Chunk>, more: Chunk, k: int)
    requires
        0 <= k <= chunks.len(),
    ensures
        chunks.push(more).subrange(0, k) == chunks.subrange(0, k),
        chunk_text(chunks.push(more)) == chunk_text(chunks) + more.text@,
        chunk_text(chunks.subrange(0, chunks.len() as int)) == chunk_text(chunks),
{
    assert(chunks.push(more).subrange(0, k) =~= chunks.subrange(0, k));
    assert(chunks.push(more).drop_last() =~= chunks);
    assert(chunks.subrange(0, chunks.len() as int) =~= chunks);
}

/// Cuts `key` into the runs of characters that were matched and the runs
/// between them; `indices` are the positions of the matched characters.
pub fn highlight(key: &str, indices: &Vec<usize>) -> (chunks: Vec<Chunk>)
    ensures
        is_chunking(chunks@, key@, indices@),
{
    let owned = chars_of(key);
    let chars = owned.as_slice();
    let length = chars.len();
    let mut chunks: Vec<Chunk> = Vec::new();
    if length == 0 {
        assert(chunk_text(chunks@) =~= key@);
        return chunks;
    }
    let mut start: usize = 0;
    let mut current = contains_index(indices, 0);
    let mut i: usize = 1;
    assert(key@.subrange(0, 0) =~= Seq::<char>::empty());
    while i < length
        invariant
            0 <= start < i <= length,
            length == chars@.len(),
            chars@ == key@,
            is_chunking(chunks@, key@.subrange(0, start as int), indices@),
            forall|j: int| start <= j < i ==> is_matched(indices@, j) == current,
            chunks@.len() > 0 ==> chunks@.last().matched != current,
        decreases length - i,
    {
        let flag = contains_index(indices, i);
        if flag != current {
            let text = sub_text(chars, start, i);
            let chunk = Chunk { text, matched: current };
            proof {
                lemma_extend(chunks@, chunk, key@, indices@, start as int, i as int);
            }
            chunks.push(chunk);
            start = i;
            current = flag;
        }
        i += 1;
    }
    let text = sub_text(chars, start, length);
    let chunk = Chunk { text, matched: current };
    proof {
        lemma_extend(chunks@, chunk, key@, indices@, start as int, length as int);
        assert(key@.subrange(0, length as int) =~= key@);
    }
    chunks.push(chunk);
    chunks
}

/// A chunking of the first `start` characters, extended by the run from
/// `start` to `end`, is a chunking of the first `end` characters.
proof fn lemma_extend(
    chunks: Seq<Chunk>,
    more: Chunk,
    key: Seq<char>,
    indices: Seq<usize>,
    start: int,
    end: int,
)
    requires
        0 <= start < end <= key.len(),
        is_chunking(chunks, key.subrange(0, start), indices),
        more.text@ == key.subrange(start, end),
        forall|j: int| start <= j < end ==> is_matched(indices, j) == more.matched,
        chunks.len() > 0 ==> chunks.last().matched != more.matched,
    ensures
        is_chunking(chunks.push(more), key.subrange(0, end), indices),
{
    let grown = chunks.push(more);
    lemma_chunk_text_prefix(chunks, more, 0);
    assert(chunk_text(grown) =~= key.subrange(0, end));
    assert forall|k: int| 0 <= k < grown.len() - 1 implies (#[trigger] grown[k]).matched
        != grown[k + 1].matched by {
        if k + 1 < chunks.len() {
            assert(grown[k] == chunks[k] && grown[k + 1] == chunks[k + 1]);
        } else {
            assert(grown[k] == chunks.last());
        }
    }
    assert forall|k: int, i: int|
        0 <= k < grown.len() && 0 <= i < grown[k].text@.len() implies is_matched(
        indices,
        #[trigger] position_in_key(grown, k, i),
    ) == grown[k].matched by {
        lemma_chunk_text_prefix(chunks, more, k);
        if k < chunks.len() {
            assert(grown[k] == chunks[k]);
            assert(position_in_key(grown, k, i) == position_in_key(chunks, k, i));
        } else {
            assert(chunk_text(grown.subrange(0, k)).len() == start);
        }
    }
}

} // verus!
