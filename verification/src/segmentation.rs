//! Cutting text into sentences and sentences into lower-cased words. Where
//! the boundaries fall is decided by the Unicode text segmentation rules, as
//! the `unicode_segmentation` crate implements them; what a lower-cased word
//! is, by the standard library.

use vstd::prelude::*;
use unicode_segmentation::UnicodeSegmentation;

verus! {

/// The sentences of `text`, in order, as `UnicodeSegmentation::unicode_sentences`
/// yields them: the pieces between sentence boundaries that hold at least one
/// alphanumeric character.
pub uninterp spec fn unicode_sentences_of(text: Seq<char>) -> Seq<Seq<char>>;

/// The words of `sentence`, in order, as `UnicodeSegmentation::unicode_words`
/// yields them: the pieces between word boundaries that hold at least one
/// alphanumeric character.
pub uninterp spec fn unicode_words_of(sentence: Seq<char>) -> Seq<Seq<char>>;

/// The lower-case form of `word`, as `str::to_lowercase` gives it.
pub uninterp spec fn lowercase_of(word: Seq<char>) -> Seq<char>;

/// Calls `UnicodeSegmentation::unicode_sentences` of `unicode_segmentation`
/// and copies each sentence it yields. Trusted: the result is what that
/// iterator yields for this text, in order. Every sentence it yields is a
/// piece of the text with an alphanumeric character in it, so the empty text
/// has none.
#[verifier::external_body]
fn split_sentences(text: &str) -> (sentences: Vec<String>)
    ensures
        sentences.deep_view() == unicode_sentences_of(text@),
        text@.len() == 0 ==> sentences@.len() == 0,
{
    let mut sentences: Vec<String> = Vec::new();
    for sentence in text.unicode_sentences() {
        sentences.push(sentence.to_string());
    }
    sentences
}

/// Calls `UnicodeSegmentation::unicode_words` of `unicode_segmentation` and
/// copies each word it yields. Trusted: the result is what that iterator
/// yields for this sentence, in order.
#[verifier::external_body]
fn split_words(sentence: &str) -> (words: Vec<String>)
    ensures
        words.deep_view() == unicode_words_of(sentence@),
{
    let mut words: Vec<String> = Vec::new();
    for word in sentence.unicode_words() {
        words.push(word.to_string());
    }
    words
}

/// `str::to_lowercase` of the standard library. Trusted: the result depends
/// on the characters of the string alone.
pub assume_specification[ str::to_lowercase ](s: &str) -> (lower: String)
    ensures
        lower@ == lowercase_of(s@),
;

/// The words of `sentence`, each in lower case.
pub open spec fn lowered_words_of(sentence: Seq<char>) -> Seq<Seq<char>> {
    unicode_words_of(sentence).map_values(|word: Seq<char>| lowercase_of(word))
}

/// The sentences of `text`, each as its words in lower case.
pub open spec fn segmented(text: Seq<char>) -> Seq<Seq<Seq<char>>> {
    unicode_sentences_of(text).map_values(|sentence: Seq<char>| lowered_words_of(sentence))
}

/// Cuts one sentence into its words and lower-cases each.
pub fn segment_sentence(sentence: &str) -> (words: Vec<String>)
    ensures
        words.deep_view() == lowered_words_of(sentence@),
{
    let raw = split_words(sentence);
    let mut words: Vec<String> = Vec::new();
    let mut i: usize = 0;
    while i < raw.len()
        invariant
            i <= raw@.len(),
            raw.deep_view() == unicode_words_of(sentence@),
            words.deep_view() == lowered_words_of(sentence@).take(i as int),
        decreases raw@.len() - i,
    {
        let lower = raw[i].as_str().to_lowercase();
        let ghost before = words.deep_view();
        proof {
            assert(raw.deep_view()[i as int] == raw@[i as int]@);
            assert(lowered_words_of(sentence@)[i as int] == lower@);
        }
        words.push(lower);
        i += 1;
        assert(words.deep_view() =~= before.push(lower@));
        assert(words.deep_view() =~= lowered_words_of(sentence@).take(i as int));
    }
    assert(words.deep_view() =~= lowered_words_of(sentence@));
    words
}

/// Cuts `text` into sentences and each sentence into lower-cased words. The
/// empty text has no sentence.
pub fn segment_text(text: &str) -> (sentences: Vec<Vec<String>>)
    ensures
        sentences.deep_view() == segmented(text@),
        text@.len() == 0 ==> sentences@.len() == 0,
{
    let raw = split_sentences(text);
    let mut sentences: Vec<Vec<String>> = Vec::new();
    let mut i: usize = 0;
    while i < raw.len()
        invariant
            i <= raw@.len(),
            raw.deep_view() == unicode_sentences_of(text@),
            sentences@.len() == i,
            sentences.deep_view() == segmented(text@).take(i as int),
        decreases raw@.len() - i,
    {
        let words = segment_sentence(raw[i].as_str());
        let ghost before = sentences.deep_view();
        proof {
            assert(raw.deep_view()[i as int] == raw@[i as int]@);
            assert(segmented(text@)[i as int] == words.deep_view());
        }
        sentences.push(words);
        i += 1;
        assert(sentences.deep_view() =~= before.push(words.deep_view()));
        assert(sentences.deep_view() =~= segmented(text@).take(i as int));
    }
    assert(sentences.deep_view() =~= segmented(text@));
    sentences
}

} // verus!
