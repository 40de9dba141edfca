//! What it means for a span of a word to be the span that the tokenizer picks,
//! and the token sequence that follows from picking it again and again.
//!
//! A vocabulary is a map from token text to score. A word is a sequence of
//! Unicode scalar values; spans are counted in scalar values, never in bytes.

use vstd::prelude::*;
use crate::constants::unknown;

verus! {

/// `word[start..start + len]` is a non-empty span of `word` that the
/// vocabulary holds.
pub open spec fn is_match(
    vocab: Map<Seq<char>, isize>,
    word: Seq<char>,
    start: int,
    len: int,
) -> bool {
    &&& 0 <= start
    &&& 1 <= len
    &&& start + len <= word.len()
    &&& vocab.contains_key(word.subrange(start, start + len))
}

/// Some non-empty span of `word` is in the vocabulary.
pub open spec fn has_match(vocab: Map<Seq<char>, isize>, word: Seq<char>) -> bool {
    exists|start: int, len: int| is_match(vocab, word, start, len)
}

/// The score of the span `word[start..start + len]`.
pub open spec fn score_at(
    vocab: Map<Seq<char>, isize>,
    word: Seq<char>,
    start: int,
    len: int,
) -> isize {
    vocab[word.subrange(start, start + len)]
}

/// `word[start..start + len]` is the span that is picked: it is in the
/// vocabulary, no span in the vocabulary is longer, no span of the same
/// length has a higher score, and among the spans of that length and score it
/// is the one that starts last.
pub open spec fn is_best_match(
    vocab: Map<Seq<char>, isize>,
    word: Seq<char>,
    start: int,
    len: int,
) -> bool {
    &&& is_match(vocab, word, start, len)
    &&& forall|s: int, l: int| #[trigger] is_match(vocab, word, s, l) ==> l <= len
    &&& forall|s: int| #[trigger]
        is_match(vocab, word, s, len) ==> {
            ||| score_at(vocab, word, s, len) < score_at(vocab, word, start, len)
            ||| (score_at(vocab, word, s, len) == score_at(vocab, word, start, len) && s <= start)
        }
}

/// The span that is picked in `word`, as start and length, if there is one.
pub open spec fn best_match(vocab: Map<Seq<char>, isize>, word: Seq<char>) -> Option<(int, int)> {
    if exists|start: int, len: int| is_best_match(vocab, word, start, len) {
        Some(choose|start: int, len: int| is_best_match(vocab, word, start, len))
    } else {
        None
    }
}

/// The tokens of one word. The empty word has none. A word with no span in
/// the vocabulary is one unknown token, whole. Otherwise the picked span is a
/// token of its own, between the tokens of what stands before it and the
/// tokens of what stands after it.
pub open spec fn word_tokens(vocab: Map<Seq<char>, isize>, word: Seq<char>) -> Seq<Seq<char>>
    decreases word.len(),
{
    if word.len() == 0 {
        Seq::empty()
    } else {
        match best_match(vocab, word) {
            None => seq![unknown()],
            Some((start, len)) => {
                word_tokens(vocab, word.subrange(0, start)) + seq![
                    word.subrange(start, start + len),
                ] + word_tokens(vocab, word.subrange(start + len, word.len() as int))
            },
        }
    }
}

/// At most one span of a word is the picked one.
pub proof fn lemma_best_match_unique(
    vocab: Map<Seq<char>, isize>,
    word: Seq<char>,
    s1: int,
    l1: int,
    s2: int,
    l2: int,
)
    requires
        is_best_match(vocab, word, s1, l1),
        is_best_match(vocab, word, s2, l2),
    ensures
        s1 == s2,
        l1 == l2,
{
    assert(is_match(vocab, word, s1, l1));
    assert(is_match(vocab, word, s2, l2));
}

/// A span that meets the description of the picked span is what `best_match`
/// returns.
pub proof fn lemma_best_match_is(vocab: Map<Seq<char>, isize>, word: Seq<char>, start: int, len: int)
    requires
        is_best_match(vocab, word, start, len),
    ensures
        best_match(vocab, word) == Some((start, len)),
{
    let (s, l) = choose|s: int, l: int| is_best_match(vocab, word, s, l);
    lemma_best_match_unique(vocab, word, start, len, s, l);
}

/// Among the spans of one length that are in the vocabulary and start before
/// `bound`, one has the highest score and starts last among those that have
/// it.
proof fn lemma_best_start_exists(
    vocab: Map<Seq<char>, isize>,
    word: Seq<char>,
    len: int,
    bound: int,
) -> (best: int)
    requires
        exists|s: int| s < bound && is_match(vocab, word, s, len),
    ensures
        best < bound,
        is_match(vocab, word, best, len),
        forall|s: int|
            s < bound && #[trigger] is_match(vocab, word, s, len) ==> {
                ||| score_at(vocab, word, s, len) < score_at(vocab, word, best, len)
                ||| (score_at(vocab, word, s, len) == score_at(vocab, word, best, len) && s
                    <= best)
            },
    decreases bound,
{
    let witness = choose|s: int| s < bound && is_match(vocab, word, s, len);
    if exists|s: int| s < bound - 1 && is_match(vocab, word, s, len) {
        let earlier = lemma_best_start_exists(vocab, word, len, bound - 1);
        if is_match(vocab, word, bound - 1, len) && score_at(vocab, word, earlier, len)
            <= score_at(vocab, word, bound - 1, len) {
            bound - 1
        } else {
            earlier
        }
    } else {
        assert(witness == bound - 1);
        bound - 1
    }
}

/// Among the spans that are in the vocabulary, none of them longer than
/// `bound`, one is the longest.
proof fn lemma_longest_exists(vocab: Map<Seq<char>, isize>, word: Seq<char>, bound: int) -> (len:
    int)
    requires
        has_match(vocab, word),
        forall|s: int, l: int| #[trigger] is_match(vocab, word, s, l) ==> l <= bound,
    ensures
        exists|s: int| is_match(vocab, word, s, len),
        forall|s: int, l: int| #[trigger] is_match(vocab, word, s, l) ==> l <= len,
    decreases bound,
{
    let (s0, l0) = choose|s: int, l: int| is_match(vocab, word, s, l);
    assert(1 <= l0 <= bound);
    if exists|s: int| is_match(vocab, word, s, bound) {
        bound
    } else {
        assert forall|s: int, l: int| #[trigger] is_match(vocab, word, s, l) implies l <= bound
            - 1 by {
            if l == bound {
                assert(is_match(vocab, word, s, bound));
            }
        }
        lemma_longest_exists(vocab, word, bound - 1)
    }
}

/// A word has a picked span exactly if some span of it is in the
/// vocabulary.
pub proof fn lemma_best_match_exists(vocab: Map<Seq<char>, isize>, word: Seq<char>)
    ensures
        best_match(vocab, word) is Some <==> has_match(vocab, word),
        best_match(vocab, word) matches Some((start, len)) ==> is_best_match(
            vocab,
            word,
            start,
            len,
        ),
{
    if has_match(vocab, word) {
        let len = lemma_longest_exists(vocab, word, word.len() as int);
        let start = lemma_best_start_exists(vocab, word, len, word.len() as int);
        assert(is_best_match(vocab, word, start, len));
    }
    if best_match(vocab, word) is Some {
        let (start, len) = choose|start: int, len: int| is_best_match(vocab, word, start, len);
        assert(is_match(vocab, word, start, len));
    }
}

/// A word that is not empty and has no span in the vocabulary is tokenized
/// to the unknown token alone.
pub proof fn lemma_unmatched_word_is_unknown(vocab: Map<Seq<char>, isize>, word: Seq<char>)
    requires
        word.len() > 0,
        !has_match(vocab, word),
    ensures
        word_tokens(vocab, word) == seq![unknown()],
{
    lemma_best_match_exists(vocab, word);
}

/// A word that is not empty and is itself in the vocabulary is tokenized to
/// itself alone.
pub proof fn lemma_whole_word_is_one_token(vocab: Map<Seq<char>, isize>, word: Seq<char>)
    requires
        word.len() > 0,
        vocab.contains_key(word),
    ensures
        word_tokens(vocab, word) == seq![word],
{
    let n = word.len() as int;
    assert(word.subrange(0, n) =~= word);
    assert(is_best_match(vocab, word, 0, n));
    lemma_best_match_is(vocab, word, 0, n);
    reveal_with_fuel(word_tokens, 2);
    assert(word.subrange(0, 0).len() == 0);
    assert(word.subrange(n, n).len() == 0);
    assert(word_tokens(vocab, word) =~= seq![word]);
}

/// Length goes before score: where a span in the vocabulary is longer than
/// another, the other is not the picked one, whatever the scores.
pub proof fn lemma_longer_match_wins(
    vocab: Map<Seq<char>, isize>,
    word: Seq<char>,
    start: int,
    len: int,
    other_start: int,
    other_len: int,
)
    requires
        is_match(vocab, word, start, len),
        is_match(vocab, word, other_start, other_len),
        other_len < len,
    ensures
        !is_best_match(vocab, word, other_start, other_len),
{
}

} // verus!
