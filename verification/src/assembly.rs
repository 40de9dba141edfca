//! How the tokens of words make up the tokens of a sentence, and those of
//! sentences the tokens of a text.

use vstd::prelude::*;
use crate::constants::{sentence_end, sentence_start, word_break};
use crate::matching::word_tokens;

verus! {

/// A word as it is matched against the vocabulary: the word-break character,
/// then the word.
pub open spec fn prefixed(word: Seq<char>) -> Seq<char> {
    seq![word_break()] + word
}

/// The tokens of `words`, in the order of the words: each word is prefixed
/// with the word-break character and tokenized on its own.
pub open spec fn words_tokens(vocab: Map<Seq<char>, isize>, words: Seq<Seq<char>>) -> Seq<
    Seq<char>,
>
    decreases words.len(),
{
    if words.len() == 0 {
        Seq::empty()
    } else {
        words_tokens(vocab, words.drop_last()) + word_tokens(vocab, prefixed(words.last()))
    }
}

/// The tokens of a sentence made of `words`: the start token, the tokens of
/// the words, the end token.
pub open spec fn sentence_tokens(vocab: Map<Seq<char>, isize>, words: Seq<Seq<char>>) -> Seq<
    Seq<char>,
> {
    seq![sentence_start()] + words_tokens(vocab, words) + seq![sentence_end()]
}

/// The tokens of each of `sentences`, sentence by sentence.
pub open spec fn sentences_tokens(
    vocab: Map<Seq<char>, isize>,
    sentences: Seq<Seq<Seq<char>>>,
) -> Seq<Seq<Seq<char>>> {
    sentences.map_values(|words: Seq<Seq<char>>| sentence_tokens(vocab, words))
}

/// The tokens of all of `sentences` in one sequence, in the order of the
/// text.
pub open spec fn text_tokens(vocab: Map<Seq<char>, isize>, sentences: Seq<Seq<Seq<char>>>) -> Seq<
    Seq<char>,
>
    decreases sentences.len(),
{
    if sentences.len() == 0 {
        Seq::empty()
    } else {
        text_tokens(vocab, sentences.drop_last()) + sentence_tokens(vocab, sentences.last())
    }
}

/// The flat token sequence of a text is its per-sentence token sequences put
/// one after the other.
pub proof fn lemma_text_tokens_flatten(
    vocab: Map<Seq<char>, isize>,
    sentences: Seq<Seq<Seq<char>>>,
)
    ensures
        text_tokens(vocab, sentences) == sentences_tokens(vocab, sentences).flatten(),
    decreases sentences.len(),
{
    if sentences.len() == 0 {
        assert(sentences_tokens(vocab, sentences) =~= Seq::<Seq<Seq<char>>>::empty());
    } else {
        let front = sentences.drop_last();
        lemma_text_tokens_flatten(vocab, front);
        assert(sentences_tokens(vocab, sentences) =~= sentences_tokens(vocab, front).push(
            sentence_tokens(vocab, sentences.last()),
        ));
        sentences_tokens(vocab, front).lemma_flatten_push(
            sentence_tokens(vocab, sentences.last()),
        );
    }
}

/// A text without sentences has no tokens, flat or by sentence.
pub proof fn lemma_no_sentences_no_tokens(vocab: Map<Seq<char>, isize>)
    ensures
        text_tokens(vocab, Seq::empty()) == Seq::<Seq<char>>::empty(),
        sentences_tokens(vocab, Seq::empty()) == Seq::<Seq<Seq<char>>>::empty(),
{
    assert(sentences_tokens(vocab, Seq::empty()) =~= Seq::<Seq<Seq<char>>>::empty());
}

} // verus!
