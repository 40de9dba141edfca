//! The encoder: a vocabulary of scored tokens, and the tokenizing of words
//! against it.

use vstd::prelude::*;
use vstd::hash_map::StringHashMap;
use crate::assembly::{
    lemma_text_tokens_flatten, prefixed, sentence_tokens, sentences_tokens, text_tokens,
    words_tokens,
};
use crate::constants::{
    sentence_end, sentence_end_token, sentence_start, sentence_start_token, unknown_token,
    word_break_char,
};
use crate::errors::BytePairEncoderError;
use crate::matching::{
    has_match, is_best_match, is_match, lemma_best_match_is, score_at, word_tokens,
};
use crate::segmentation::{lowered_words_of, segment_sentence, segment_text, segmented};
use crate::text::{chars_of, push_chars, string_of};
use crate::vocabulary::{
    find_char, insert_lines, insert_pairs, lemma_run_len_is, lines_from, lookup_in,
    parse_vocabulary, read_score,
};

verus! {

/// A byte pair encoding vocabulary: a table from token text to score. A
/// higher score is preferred among matches of equal length. The table is
/// fixed once built.
pub struct BytePairEncoder {
    pub(crate) tokens: StringHashMap<isize>,
}

impl View for BytePairEncoder {
    type V = Map<Seq<char>, isize>;

    /// The vocabulary as a map from token text to score.
    closed spec fn view(&self) -> Map<Seq<char>, isize> {
        self.tokens@
    }
}

/// What `pairs` holds, each token as its characters.
pub open spec fn pairs_view(pairs: Seq<(String, isize)>) -> Seq<(Seq<char>, isize)> {
    pairs.map_values(|pair: (String, isize)| (pair.0@, pair.1))
}

impl BytePairEncoder {
    /// Builds the encoder from the text form of a vocabulary: one line per
    /// token, holding the token, a tab and the score. Where two lines name the
    /// same token the later one counts. Empty text gives the empty
    /// vocabulary. One malformed line fails the whole text.
    pub fn new_from_str(input: &str) -> (built: Result<BytePairEncoder, BytePairEncoderError>)
        ensures
            match built {
                Ok(encoder) => parse_vocabulary(input@) == Some(encoder@),
                Err(error) => {
                    &&& error == BytePairEncoderError::InvalidVocabularyInput
                    &&& parse_vocabulary(input@) is None
                },
            },
    {
        let chars = chars_of(input);
        let n = chars.len();
        let mut tokens: StringHashMap<isize> = StringHashMap::new();
        let mut from: usize = 0;
        while from < n
            invariant
                from <= n,
                n == chars@.len(),
                chars@ == input@,
                parse_vocabulary(input@) == insert_lines(tokens@, lines_from(chars@, from as int)),
            decreases n - from,
        {
            let end = find_char(&chars, from, n, '\n');
            let stop: usize = if end < n && from < end && chars[end - 1] == '\r' {
                end - 1
            } else {
                end
            };
            let ghost line = chars@.subrange(from as int, stop as int);
            let ghost rest = if end < n {
                lines_from(chars@, end + 1)
            } else {
                Seq::empty()
            };
            proof {
                lemma_run_len_is(chars@, from as int, end as int, '\n');
                assert(lines_from(chars@, from as int) == seq![line] + rest);
                assert((seq![line] + rest)[0] == line);
                assert((seq![line] + rest).drop_first() =~= rest);
            }
            let tab = find_char(&chars, from, stop, '\t');
            proof {
                assert forall|i: int| 0 <= i < tab - from implies line[i] != '\t' by {
                    assert(line[i] == chars@[from + i]);
                }
                lemma_run_len_is(line, 0, tab - from, '\t');
                assert(line.subrange(0, tab - from) =~= chars@.subrange(from as int, tab as int));
            }
            if tab == stop {
                return Err(BytePairEncoderError::InvalidVocabularyInput);
            }
            assert(line.subrange(tab - from + 1, line.len() as int) =~= chars@.subrange(
                tab + 1,
                stop as int,
            ));
            match read_score(&chars, tab + 1, stop) {
                None => {
                    return Err(BytePairEncoderError::InvalidVocabularyInput);
                },
                Some(score) => {
                    tokens.insert(string_of(&chars, from, tab), score);
                },
            }
            from = if end < n {
                end + 1
            } else {
                n
            };
        }
        Ok(BytePairEncoder { tokens })
    }

    /// Builds the encoder from tokens and scores that are already at hand.
    /// Where two pairs name the same token the later one counts.
    pub fn new_from_pairs(pairs: &Vec<(String, isize)>) -> (encoder: BytePairEncoder)
        ensures
            encoder@ == insert_pairs(Map::empty(), pairs_view(pairs@)),
    {
        let mut tokens: StringHashMap<isize> = StringHashMap::new();
        let mut i: usize = 0;
        assert(pairs_view(pairs@).skip(0) =~= pairs_view(pairs@));
        while i < pairs.len()
            invariant
                i <= pairs@.len(),
                insert_pairs(Map::empty(), pairs_view(pairs@)) == insert_pairs(
                    tokens@,
                    pairs_view(pairs@).skip(i as int),
                ),
            decreases pairs@.len() - i,
        {
            let token = pairs[i].0.clone();
            let score = pairs[i].1;
            proof {
                let left = pairs_view(pairs@).skip(i as int);
                assert(left[0] == (token@, score));
                assert(left.drop_first() =~= pairs_view(pairs@).skip(i + 1));
            }
            tokens.insert(token, score);
            i += 1;
        }
        BytePairEncoder { tokens }
    }

    /// The score of `candidate`, or `None` where the vocabulary does not hold
    /// it.
    pub fn lookup(&self, candidate: &str) -> (score: Option<isize>)
        ensures
            score == lookup_in(self@, candidate@),
    {
        match self.tokens.get(candidate) {
            Some(score) => Some(*score),
            None => None,
        }
    }

    /// The number of tokens in the vocabulary.
    pub fn len(&self) -> (n: usize)
        ensures
            n == self@.len(),
    {
        self.tokens.len()
    }

    /// Finds the span to pick in `chars[lo..hi]`: the longest span that is in
    /// the vocabulary; among several of that length the one with the highest
    /// score; among several of that length and score the one that starts
    /// last. Returns its bounds as indices into `chars`.
    pub fn find_best_match(&self, chars: &Vec<char>, lo: usize, hi: usize) -> (found: Option<
        (usize, usize),
    >)
        requires
            lo <= hi <= chars@.len(),
        ensures
            match found {
                Some((start, end)) => {
                    &&& lo <= start < end <= hi
                    &&& is_best_match(
                        self@,
                        chars@.subrange(lo as int, hi as int),
                        start - lo,
                        end - start,
                    )
                },
                None => !has_match(self@, chars@.subrange(lo as int, hi as int)),
            },
    {
        let ghost word = chars@.subrange(lo as int, hi as int);
        let mut len: usize = hi - lo;
        while len >= 1
            invariant
                lo <= hi <= chars@.len(),
                len <= hi - lo,
                word == chars@.subrange(lo as int, hi as int),
                forall|s: int, l: int| l > len ==> !is_match(self@, word, s, l),
            decreases len,
        {
            let mut best: Option<(usize, isize)> = None;
            let mut start: usize = lo;
            while start <= hi - len
                invariant
                    lo <= start,
                    start <= hi - len + 1,
                    1 <= len <= hi - lo,
                    hi <= chars@.len(),
                    word == chars@.subrange(lo as int, hi as int),
                    match best {
                        Some((at, score)) => {
                            &&& lo <= at < start
                            &&& is_match(self@, word, at - lo, len as int)
                            &&& score == score_at(self@, word, at - lo, len as int)
                            &&& forall|s: int|
                                s < start - lo && #[trigger] is_match(self@, word, s, len as int)
                                    ==> {
                                    ||| score_at(self@, word, s, len as int) < score
                                    ||| (score_at(self@, word, s, len as int) == score && s <= at
                                        - lo)
                                }
                        },
                        None => forall|s: int|
                            s < start - lo ==> !is_match(self@, word, s, len as int),
                    },
                decreases hi - len + 1 - start,
            {
                let candidate = string_of(chars, start, start + len);
                assert(candidate@ =~= word.subrange(start - lo, start - lo + len));
                match self.tokens.get(candidate.as_str()) {
                    Some(score) => {
                        let better = match best {
                            Some((_, top)) => top <= *score,
                            None => true,
                        };
                        if better {
                            best = Some((start, *score));
                        }
                    },
                    None => {},
                }
                start += 1;
            }
            match best {
                Some((at, _)) => {
                    return Some((at, at + len));
                },
                None => {},
            }
            len -= 1;
        }
        None
    }

    /// Appends the tokens of `chars[lo..hi]` to `out`.
    pub fn tokenize_span(&self, chars: &Vec<char>, lo: usize, hi: usize, out: &mut Vec<String>)
        requires
            lo <= hi <= chars@.len(),
        ensures
            final(out).deep_view() == old(out).deep_view() + word_tokens(
                self@,
                chars@.subrange(lo as int, hi as int),
            ),
        decreases hi - lo,
    {
        let ghost word = chars@.subrange(lo as int, hi as int);
        let ghost before = out.deep_view();
        if lo == hi {
            assert(out.deep_view() =~= before + word_tokens(self@, word));
            return ;
        }
        match self.find_best_match(chars, lo, hi) {
            None => {
                out.push(unknown_token());
                assert(out.deep_view() =~= before + word_tokens(self@, word));
            },
            Some((start, end)) => {
                proof {
                    lemma_best_match_is(self@, word, start - lo, end - start);
                    assert(word.subrange(0, start - lo) =~= chars@.subrange(
                        lo as int,
                        start as int,
                    ));
                    assert(word.subrange(start - lo, end - lo) =~= chars@.subrange(
                        start as int,
                        end as int,
                    ));
                    assert(word.subrange(end - lo, word.len() as int) =~= chars@.subrange(
                        end as int,
                        hi as int,
                    ));
                }
                self.tokenize_span(chars, lo, start, out);
                let ghost left = out.deep_view();
                out.push(string_of(chars, start, end));
                assert(out.deep_view() =~= left + seq![chars@.subrange(start as int, end as int)]);
                self.tokenize_span(chars, end, hi, out);
                assert(out.deep_view() =~= before + word_tokens(self@, word));
            },
        }
    }

    /// Splits one word into tokens of the vocabulary. The empty word gives no
    /// token; a word with no part in the vocabulary gives the unknown token.
    pub fn tokenize_word(&self, text: &str) -> (tokens: Vec<String>)
        ensures
            tokens.deep_view() == word_tokens(self@, text@),
    {
        let chars = chars_of(text);
        let mut tokens: Vec<String> = Vec::new();
        assert(chars@.subrange(0, chars@.len() as int) =~= text@);
        assert(tokens.deep_view() =~= Seq::<Seq<char>>::empty());
        self.tokenize_span(&chars, 0, chars.len(), &mut tokens);
        assert(tokens.deep_view() =~= word_tokens(self@, text@));
        tokens
    }

    /// Appends to `out` the tokens of a sentence whose words, already in lower
    /// case, are `words`: the start token, the tokens of each word with the
    /// word-break character in front of it, the end token.
    pub fn tokenize_words_into(&self, words: &Vec<String>, out: &mut Vec<String>)
        ensures
            final(out).deep_view() == old(out).deep_view() + sentence_tokens(
                self@,
                words.deep_view(),
            ),
    {
        let ghost before = out.deep_view();
        out.push(sentence_start_token());
        assert(words.deep_view().take(0) =~= Seq::<Seq<char>>::empty());
        assert(out.deep_view() =~= before + seq![sentence_start()]
            + words_tokens(self@, words.deep_view().take(0)));
        let mut i: usize = 0;
        while i < words.len()
            invariant
                i <= words@.len(),
                out.deep_view() == before + seq![sentence_start()]
                    + words_tokens(self@, words.deep_view().take(i as int)),
            decreases words@.len() - i,
        {
            let mut chars: Vec<char> = Vec::new();
            chars.push(word_break_char());
            push_chars(words[i].as_str(), &mut chars);
            proof {
                assert(chars@ =~= prefixed(words.deep_view()[i as int]));
                assert(chars@.subrange(0, chars@.len() as int) =~= chars@);
                let upto = words.deep_view().take(i + 1);
                assert(upto.drop_last() =~= words.deep_view().take(i as int));
                assert(upto.last() == words.deep_view()[i as int]);
            }
            self.tokenize_span(&chars, 0, chars.len(), out);
            i += 1;
            assert(out.deep_view() =~= before + seq![sentence_start()]
                + words_tokens(self@, words.deep_view().take(i as int)));
        }
        assert(words.deep_view().take(words@.len() as int) =~= words.deep_view());
        let ghost body = out.deep_view();
        out.push(sentence_end_token());
        assert(out.deep_view() =~= body + seq![sentence_end()]);
        assert(out.deep_view() =~= before + sentence_tokens(self@, words.deep_view()));
    }

    /// The tokens of a sentence whose words, already in lower case, are
    /// `words`.
    pub fn tokenize_words(&self, words: &Vec<String>) -> (tokens: Vec<String>)
        ensures
            tokens.deep_view() == sentence_tokens(self@, words.deep_view()),
    {
        let mut tokens: Vec<String> = Vec::new();
        assert(tokens.deep_view() =~= Seq::<Seq<char>>::empty());
        self.tokenize_words_into(words, &mut tokens);
        assert(tokens.deep_view() =~= sentence_tokens(self@, words.deep_view()));
        tokens
    }

    /// The tokens of one sentence, between the start and the end token. The
    /// sentence is cut into words, each word is lower-cased, prefixed with the
    /// word-break character and tokenized.
    pub fn tokenize_with_sentence_markers_iter(&self, sentence: &str) -> (tokens: Vec<String>)
        ensures
            tokens.deep_view() == sentence_tokens(self@, lowered_words_of(sentence@)),
    {
        let words = segment_sentence(sentence);
        self.tokenize_words(&words)
    }

    /// The tokens of each of `sentences`, which are given as their words in
    /// lower case.
    pub fn tokenize_segmented(&self, sentences: &Vec<Vec<String>>) -> (nested: Vec<Vec<String>>)
        ensures
            nested.deep_view() == sentences_tokens(self@, sentences.deep_view()),
    {
        let mut nested: Vec<Vec<String>> = Vec::new();
        let mut i: usize = 0;
        while i < sentences.len()
            invariant
                i <= sentences@.len(),
                nested.deep_view() == sentences_tokens(self@, sentences.deep_view()).take(
                    i as int,
                ),
            decreases sentences@.len() - i,
        {
            let tokens = self.tokenize_words(&sentences[i]);
            let ghost before = nested.deep_view();
            proof {
                assert(sentences.deep_view()[i as int] == sentences@[i as int].deep_view());
                assert(sentences_tokens(self@, sentences.deep_view())[i as int]
                    == tokens.deep_view());
            }
            nested.push(tokens);
            i += 1;
            assert(nested.deep_view() =~= before.push(tokens.deep_view()));
            assert(nested.deep_view() =~= sentences_tokens(self@, sentences.deep_view()).take(
                i as int,
            ));
        }
        assert(nested.deep_view() =~= sentences_tokens(self@, sentences.deep_view()));
        nested
    }

    /// The tokens of all of `sentences`, which are given as their words in
    /// lower case, in one sequence.
    pub fn tokenize_segmented_flat(&self, sentences: &Vec<Vec<String>>) -> (tokens: Vec<String>)
        ensures
            tokens.deep_view() == text_tokens(self@, sentences.deep_view()),
    {
        let mut tokens: Vec<String> = Vec::new();
        let mut i: usize = 0;
        assert(sentences.deep_view().take(0) =~= Seq::<Seq<Seq<char>>>::empty());
        assert(tokens.deep_view() =~= Seq::<Seq<char>>::empty());
        while i < sentences.len()
            invariant
                i <= sentences@.len(),
                tokens.deep_view() == text_tokens(self@, sentences.deep_view().take(i as int)),
            decreases sentences@.len() - i,
        {
            proof {
                let upto = sentences.deep_view().take(i + 1);
                assert(upto.drop_last() =~= sentences.deep_view().take(i as int));
                assert(upto.last() == sentences@[i as int].deep_view());
            }
            self.tokenize_words_into(&sentences[i], &mut tokens);
            i += 1;
        }
        assert(sentences.deep_view().take(sentences@.len() as int) =~= sentences.deep_view());
        tokens
    }

    /// Tokenizes `text` sentence by sentence: one token sequence for each
    /// sentence, in the order of the text. The empty text has no sentence.
    pub fn tokenize_sentences_iter(&self, text: &str) -> (nested: Vec<Vec<String>>)
        ensures
            nested.deep_view() == sentences_tokens(self@, segmented(text@)),
            text@.len() == 0 ==> nested@.len() == 0,
    {
        let sentences = segment_text(text);
        let nested = self.tokenize_segmented(&sentences);
        assert(nested.deep_view().len() == nested@.len());
        nested
    }

    /// Tokenizes `text` into one token sequence: the tokens of its sentences,
    /// one sentence after the other. The empty text has no token.
    pub fn tokenize_iter(&self, text: &str) -> (tokens: Vec<String>)
        ensures
            tokens.deep_view() == text_tokens(self@, segmented(text@)),
            tokens.deep_view() == sentences_tokens(self@, segmented(text@)).flatten(),
            text@.len() == 0 ==> tokens@.len() == 0,
    {
        let sentences = segment_text(text);
        let tokens = self.tokenize_segmented_flat(&sentences);
        proof {
            lemma_text_tokens_flatten(self@, segmented(text@));
            assert(tokens.deep_view().len() == tokens@.len());
        }
        tokens
    }

    /// Tokenizes `text` sentence by sentence: one token sequence for each
    /// sentence, in the order of the text. The empty text has no sentence.
    pub fn tokenize_sentences(&self, text: &str) -> (nested: Vec<Vec<String>>)
        ensures
            nested.deep_view() == sentences_tokens(self@, segmented(text@)),
            text@.len() == 0 ==> nested@.len() == 0,
    {
        self.tokenize_sentences_iter(text)
    }

    /// Tokenizes `text` into one token sequence: the tokens of its sentences,
    /// one sentence after the other. The empty text has no token.
    pub fn tokenize(&self, text: &str) -> (tokens: Vec<String>)
        ensures
            tokens.deep_view() == text_tokens(self@, segmented(text@)),
            tokens.deep_view() == sentences_tokens(self@, segmented(text@)).flatten(),
            text@.len() == 0 ==> tokens@.len() == 0,
    {
        self.tokenize_iter(text)
    }
}

} // verus!
