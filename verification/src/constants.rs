//! The fixed marker tokens of the tokenizer's output.

use vstd::prelude::*;

verus! {

/// The character put in front of every word before it is matched.
pub const WORD_BREAK_CHAR: &'static str = "\u{2581}";

/// The token that opens every sentence.
pub const SENTENCE_START_TOKEN: &'static str = "<s>";

/// The token that closes every sentence.
pub const SENTENCE_END_TOKEN: &'static str = "</s>";

/// The token that stands for a span with no vocabulary entry in it.
pub const UNKNOWN_TOKEN: &'static str = "<unk>";

/// The word-break character as a scalar value: U+2581, LOWER ONE EIGHTH BLOCK.
pub open spec fn word_break() -> char {
    '\u{2581}'
}

/// The characters of the sentence start token, `<s>`.
pub open spec fn sentence_start() -> Seq<char> {
    seq!['<', 's', '>']
}

/// The characters of the sentence end token, `</s>`.
pub open spec fn sentence_end() -> Seq<char> {
    seq!['<', '/', 's', '>']
}

/// The characters of the unknown token, `<unk>`.
pub open spec fn unknown() -> Seq<char> {
    seq!['<', 'u', 'n', 'k', '>']
}

/// A fresh copy of the sentence start token.
pub fn sentence_start_token() -> (token: String)
    ensures
        token@ == sentence_start(),
{
    proof {
        reveal_strlit("<s>");
        assert(SENTENCE_START_TOKEN@ =~= sentence_start());
    }
    SENTENCE_START_TOKEN.to_owned()
}

/// A fresh copy of the sentence end token.
pub fn sentence_end_token() -> (token: String)
    ensures
        token@ == sentence_end(),
{
    proof {
        reveal_strlit("</s>");
        assert(SENTENCE_END_TOKEN@ =~= sentence_end());
    }
    SENTENCE_END_TOKEN.to_owned()
}

/// A fresh copy of the unknown token.
pub fn unknown_token() -> (token: String)
    ensures
        token@ == unknown(),
{
    proof {
        reveal_strlit("<unk>");
        assert(UNKNOWN_TOKEN@ =~= unknown());
    }
    UNKNOWN_TOKEN.to_owned()
}

/// The word-break character as a scalar value.
pub fn word_break_char() -> (c: char)
    ensures
        c == word_break(),
{
    proof {
        reveal_strlit("\u{2581}");
        assert(WORD_BREAK_CHAR@.len() == 1);
        assert(WORD_BREAK_CHAR@[0] == word_break());
    }
    WORD_BREAK_CHAR.get_char(0)
}

} // verus!
