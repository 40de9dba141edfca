//! The text form of a vocabulary: one token per line, the token, a tab, and
//! its score as a signed decimal integer.

use vstd::prelude::*;

verus! {

/// How many characters of `s`, counted from `from`, stand before the first
/// `stop` at or after `from` (or before the end, where there is none).
pub open spec fn run_len(s: Seq<char>, from: int, stop: char) -> nat
    decreases s.len() - from,
{
    if from < 0 || from >= s.len() || s[from] == stop {
        0
    } else {
        1 + run_len(s, from + 1, stop)
    }
}

/// The line of `text` that starts at `from` and is closed by the line feed
/// at `end`. A carriage return just before the line feed belongs to the line
/// ending.
pub open spec fn line_between(text: Seq<char>, from: int, end: int) -> Seq<char> {
    if from < end && text[end - 1] == '\r' {
        text.subrange(from, end - 1)
    } else {
        text.subrange(from, end)
    }
}

/// The lines of `text` from `from` on. Every line feed closes a line. What
/// follows the last line feed is a line too, unless it is empty, and is taken
/// as it stands.
pub open spec fn lines_from(text: Seq<char>, from: int) -> Seq<Seq<char>>
    decreases text.len() - from,
{
    if from < 0 || from >= text.len() {
        Seq::empty()
    } else {
        let end = from + run_len(text, from, '\n');
        if end >= text.len() {
            seq![text.subrange(from, text.len() as int)]
        } else {
            seq![line_between(text, from, end)] + lines_from(text, end + 1)
        }
    }
}

/// The lines of `text`.
pub open spec fn lines_of(text: Seq<char>) -> Seq<Seq<char>> {
    lines_from(text, 0)
}

/// `c` is one of the ten decimal digits.
pub open spec fn is_digit(c: char) -> bool {
    '0' <= c && c <= '9'
}

/// The number that the decimal digit `c` stands for.
pub open spec fn digit_value(c: char) -> int {
    c as int - '0' as int
}

/// Every character of `s` is a decimal digit.
pub open spec fn all_digits(s: Seq<char>) -> bool {
    forall|i: int| 0 <= i < s.len() ==> is_digit(#[trigger] s[i])
}

/// The number that the decimal digits `s` write, most significant first.
pub open spec fn digits_value(s: Seq<char>) -> int
    decreases s.len(),
{
    if s.len() == 0 {
        0
    } else {
        digits_value(s.drop_last()) * 10 + digit_value(s.last())
    }
}

/// The score that `s` writes: an optional `+` or `-`, then at least one
/// decimal digit and nothing else, for a number that fits the score type.
pub open spec fn parse_score(s: Seq<char>) -> Option<isize> {
    let signed = s.len() > 0 && (s[0] == '-' || s[0] == '+');
    let digits = if signed {
        s.drop_first()
    } else {
        s
    };
    let magnitude = digits_value(digits);
    let value = if s.len() > 0 && s[0] == '-' {
        -magnitude
    } else {
        magnitude
    };
    if digits.len() > 0 && all_digits(digits) && isize::MIN <= value <= isize::MAX {
        Some(value as isize)
    } else {
        None
    }
}

/// The token and score that `line` holds: the token is what stands before
/// the first tab, the score what stands after it.
pub open spec fn parse_line(line: Seq<char>) -> Option<(Seq<char>, isize)> {
    let tab = run_len(line, 0, '\t') as int;
    if tab >= line.len() {
        None
    } else {
        match parse_score(line.subrange(tab + 1, line.len() as int)) {
            Some(score) => Some((line.subrange(0, tab), score)),
            None => None,
        }
    }
}

/// `vocab` with the entries of `lines` put into it in order, a later entry
/// replacing an earlier one for the same token; `None` if any line is
/// malformed.
pub open spec fn insert_lines(vocab: Map<Seq<char>, isize>, lines: Seq<Seq<char>>) -> Option<
    Map<Seq<char>, isize>,
>
    decreases lines.len(),
{
    if lines.len() == 0 {
        Some(vocab)
    } else {
        match parse_line(lines[0]) {
            Some((token, score)) => insert_lines(vocab.insert(token, score), lines.drop_first()),
            None => None,
        }
    }
}

/// The vocabulary that `text` writes down, or `None` if one of its lines is
/// malformed. The empty text writes the empty vocabulary.
pub open spec fn parse_vocabulary(text: Seq<char>) -> Option<Map<Seq<char>, isize>> {
    insert_lines(Map::empty(), lines_of(text))
}

/// `vocab` with `pairs` put into it in order, a later pair replacing an
/// earlier one for the same token.
pub open spec fn insert_pairs(vocab: Map<Seq<char>, isize>, pairs: Seq<(Seq<char>, isize)>) -> Map<
    Seq<char>,
    isize,
>
    decreases pairs.len(),
{
    if pairs.len() == 0 {
        vocab
    } else {
        insert_pairs(vocab.insert(pairs[0].0, pairs[0].1), pairs.drop_first())
    }
}

/// The score that `vocab` holds for `candidate`, if it holds one.
pub open spec fn lookup_in(vocab: Map<Seq<char>, isize>, candidate: Seq<char>) -> Option<isize> {
    if vocab.contains_key(candidate) {
        Some(vocab[candidate])
    } else {
        None
    }
}

/// Two vocabularies read from the same text are the same vocabulary, and
/// answer every lookup alike.
pub proof fn lemma_same_text_same_lookups(
    text: Seq<char>,
    first: Map<Seq<char>, isize>,
    second: Map<Seq<char>, isize>,
    candidate: Seq<char>,
)
    requires
        parse_vocabulary(text) == Some(first),
        parse_vocabulary(text) == Some(second),
    ensures
        first == second,
        lookup_in(first, candidate) == lookup_in(second, candidate),
{
}

/// Putting lines into a vocabulary fails exactly if one of the lines is
/// malformed.
pub proof fn lemma_insert_lines_fails(vocab: Map<Seq<char>, isize>, lines: Seq<Seq<char>>)
    ensures
        insert_lines(vocab, lines) is None <==> exists|i: int|
            0 <= i < lines.len() && parse_line(#[trigger] lines[i]) is None,
    decreases lines.len(),
{
    if lines.len() > 0 {
        match parse_line(lines[0]) {
            None => {},
            Some((token, score)) => {
                let rest = lines.drop_first();
                lemma_insert_lines_fails(vocab.insert(token, score), rest);
                if insert_lines(vocab, lines) is None {
                    let i = choose|i: int| 0 <= i < rest.len() && parse_line(#[trigger] rest[i])
                        is None;
                    assert(lines[i + 1] == rest[i]);
                }
                if exists|i: int| 0 <= i < lines.len() && parse_line(#[trigger] lines[i]) is None {
                    let i = choose|i: int|
                        0 <= i < lines.len() && parse_line(#[trigger] lines[i]) is None;
                    assert(rest[i - 1] == lines[i]);
                }
            },
        }
    }
}

/// A text is no vocabulary exactly if one of its lines is malformed.
pub proof fn lemma_malformed_line_fails(text: Seq<char>)
    ensures
        parse_vocabulary(text) is None <==> exists|i: int|
            0 <= i < lines_of(text).len() && parse_line(#[trigger] lines_of(text)[i]) is None,
{
    lemma_insert_lines_fails(Map::empty(), lines_of(text));
}

/// Line `i` of `lines` is well-formed and names `token`.
pub open spec fn names_token(lines: Seq<Seq<char>>, i: int, token: Seq<char>) -> bool {
    &&& 0 <= i < lines.len()
    &&& parse_line(lines[i]) matches Some((named, _)) && named == token
}

/// What a lookup finds after lines were put into a vocabulary: for a token
/// that some line names, the score on the last line that names it; for any
/// other token, what the vocabulary held before.
pub proof fn lemma_insert_lines_lookup(
    vocab: Map<Seq<char>, isize>,
    lines: Seq<Seq<char>>,
    token: Seq<char>,
)
    requires
        insert_lines(vocab, lines) is Some,
    ensures
        (exists|i: int| names_token(lines, i, token)) ==> exists|i: int|
            {
                &&& #[trigger] names_token(lines, i, token)
                &&& forall|j: int| i < j ==> !names_token(lines, j, token)
                &&& insert_lines(vocab, lines)->0.contains_key(token)
                &&& parse_line(lines[i]) == Some((token, insert_lines(vocab, lines)->0[token]))
            },
        (forall|i: int| !names_token(lines, i, token)) ==> lookup_in(
            insert_lines(vocab, lines)->0,
            token,
        ) == lookup_in(vocab, token),
    decreases lines.len(),
{
    if lines.len() > 0 {
        let (first, score) = parse_line(lines[0])->0;
        let rest = lines.drop_first();
        let next = vocab.insert(first, score);
        lemma_insert_lines_lookup(next, rest, token);
        assert forall|j: int| 0 <= j implies names_token(rest, j, token) == names_token(
            lines,
            j + 1,
            token,
        ) by {
            if j < rest.len() {
                assert(rest[j] == lines[j + 1]);
            }
        }
        if exists|i: int| names_token(rest, i, token) {
            let i = choose|i: int|
                {
                    &&& #[trigger] names_token(rest, i, token)
                    &&& forall|j: int| i < j ==> !names_token(rest, j, token)
                    &&& insert_lines(next, rest)->0.contains_key(token)
                    &&& parse_line(rest[i]) == Some((token, insert_lines(next, rest)->0[token]))
                };
            assert(names_token(lines, i + 1, token));
            assert forall|j: int| i + 1 < j implies !names_token(lines, j, token) by {
                assert(names_token(rest, j - 1, token) == names_token(lines, j, token));
            }
        } else {
            assert forall|j: int| 0 < j implies !names_token(lines, j, token) by {
                assert(names_token(rest, j - 1, token) == names_token(lines, j, token));
            }
            if first == token {
                assert(names_token(lines, 0, token));
            } else {
                assert forall|j: int| !names_token(lines, j, token) by {
                    if j > 0 {
                        assert(names_token(rest, j - 1, token) == names_token(lines, j, token));
                    }
                }
            }
        }
    }
}

/// What a lookup finds in the vocabulary that a text writes down: for a
/// token that some line names, the score on the last line that names it; for
/// any other token, nothing.
pub proof fn lemma_parse_vocabulary_lookup(text: Seq<char>, token: Seq<char>)
    requires
        parse_vocabulary(text) is Some,
    ensures
        (exists|i: int| names_token(lines_of(text), i, token)) ==> exists|i: int|
            {
                &&& #[trigger] names_token(lines_of(text), i, token)
                &&& forall|j: int| i < j ==> !names_token(lines_of(text), j, token)
                &&& parse_vocabulary(text)->0.contains_key(token)
                &&& parse_line(lines_of(text)[i]) == Some((token, parse_vocabulary(text)->0[token]))
            },
        (forall|i: int| !names_token(lines_of(text), i, token)) ==> lookup_in(
            parse_vocabulary(text)->0,
            token,
        ) is None,
{
    lemma_insert_lines_lookup(Map::empty(), lines_of(text), token);
}

/// A line without a tab is malformed.
pub proof fn lemma_line_without_tab_is_malformed(line: Seq<char>)
    requires
        forall|i: int| 0 <= i < line.len() ==> line[i] != '\t',
    ensures
        parse_line(line) is None,
{
    lemma_run_len_is(line, 0, line.len() as int, '\t');
}

/// Text with a character in it that is neither a decimal digit nor a sign in
/// the first place writes no score.
pub proof fn lemma_score_with_other_character(s: Seq<char>, at: int)
    requires
        0 <= at < s.len(),
        !is_digit(s[at]),
        at > 0 || (s[0] != '-' && s[0] != '+'),
    ensures
        parse_score(s) is None,
{
    if s[0] == '-' || s[0] == '+' {
        assert(s.drop_first()[at - 1] == s[at]);
    }
}

/// A run that is known to hold no `stop` up to `to`, where a `stop` or the
/// end of `s` stands, has exactly that length.
pub proof fn lemma_run_len_is(s: Seq<char>, from: int, to: int, stop: char)
    requires
        0 <= from <= to <= s.len(),
        forall|i: int| from <= i < to ==> s[i] != stop,
        to < s.len() ==> s[to] == stop,
    ensures
        from + run_len(s, from, stop) == to,
    decreases to - from,
{
    if from < to {
        lemma_run_len_is(s, from + 1, to, stop);
    }
}

/// Reading more digits never makes the number smaller.
pub proof fn lemma_digits_value_grows(s: Seq<char>, k: int)
    requires
        all_digits(s),
        0 <= k <= s.len(),
    ensures
        0 <= digits_value(s.take(k)) <= digits_value(s),
    decreases s.len() - k,
{
    if k == s.len() {
        assert(s.take(k) =~= s);
        lemma_digits_value_nonnegative(s);
    } else {
        lemma_digits_value_grows(s, k + 1);
        assert(s.take(k + 1).drop_last() =~= s.take(k));
        assert(is_digit(s[k]));
        assert(s.take(k + 1).last() == s[k]);
        lemma_digits_value_nonnegative(s.take(k));
    }
}

/// The number that digits write is not negative.
pub proof fn lemma_digits_value_nonnegative(s: Seq<char>)
    requires
        all_digits(s),
    ensures
        0 <= digits_value(s),
    decreases s.len(),
{
    if s.len() > 0 {
        assert(is_digit(s.last()));
        lemma_digits_value_nonnegative(s.drop_last());
    }
}

/// The first place in `chars[from..to]` that holds `stop`, or `to` where none
/// does.
pub fn find_char(chars: &Vec<char>, from: usize, to: usize, stop: char) -> (at: usize)
    requires
        from <= to <= chars@.len(),
    ensures
        from <= at <= to,
        forall|i: int| from <= i < at ==> chars@[i] != stop,
        at < to ==> chars@[at as int] == stop,
{
    let mut at: usize = from;
    while at < to && chars[at] != stop
        invariant
            from <= at <= to <= chars@.len(),
            forall|i: int| from <= i < at ==> chars@[i] != stop,
        decreases to - at,
    {
        at += 1;
    }
    at
}

/// Reads `chars[from..to]` as a score.
pub fn read_score(chars: &Vec<char>, from: usize, to: usize) -> (score: Option<isize>)
    requires
        from <= to <= chars@.len(),
    ensures
        score == parse_score(chars@.subrange(from as int, to as int)),
{
    let ghost s = chars@.subrange(from as int, to as int);
    if from == to {
        return None;
    }
    let first = chars[from];
    assert(s[0] == first);
    let negative = first == '-';
    let start: usize = if first == '-' || first == '+' {
        from + 1
    } else {
        from
    };
    let ghost digits = chars@.subrange(start as int, to as int);
    assert(digits =~= if s[0] == '-' || s[0] == '+' {
        s.drop_first()
    } else {
        s
    });
    if start == to {
        return None;
    }
    let limit: i128 = if negative {
        -(isize::MIN as i128)
    } else {
        isize::MAX as i128
    };
    let mut acc: i128 = 0;
    let mut i: usize = start;
    while i < to
        invariant
            from <= start <= i <= to <= chars@.len(),
            start < to,
            s == chars@.subrange(from as int, to as int),
            digits == chars@.subrange(start as int, to as int),
            digits == if s[0] == '-' || s[0] == '+' {
                s.drop_first()
            } else {
                s
            },
            negative == (s[0] == '-'),
            limit == if negative {
                -(isize::MIN as int)
            } else {
                isize::MAX as int
            },
            0 <= acc <= limit,
            limit <= 0x8000_0000_0000_0000,
            all_digits(digits.take(i - start)),
            acc == digits_value(digits.take(i - start)),
        decreases to - i,
    {
        let c = chars[i];
        assert(digits[i - start] == c);
        if !('0' <= c && c <= '9') {
            return None;
        }
        let digit: i128 = (c as u32 - '0' as u32) as i128;
        acc = acc * 10 + digit;
        proof {
            let next = digits.take(i + 1 - start);
            assert(next.drop_last() =~= digits.take(i - start));
            assert(next.last() == c);
            assert(all_digits(next)) by {
                assert forall|j: int| 0 <= j < next.len() implies is_digit(#[trigger] next[j]) by {
                    if j < i - start {
                        assert(next[j] == digits.take(i - start)[j]);
                    }
                }
            }
        }
        if acc > limit {
            proof {
                if all_digits(digits) {
                    lemma_digits_value_grows(digits, i + 1 - start);
                }
            }
            return None;
        }
        i += 1;
    }
    assert(digits.take(to - start) =~= digits);
    if negative {
        Some((-acc) as isize)
    } else {
        Some(acc as isize)
    }
}

} // verus!
