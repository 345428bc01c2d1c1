//! The line tokenizer: commas become tokens of their own, white space separates.

use crate::text::char_is_whitespace;
use crate::text::is_whitespace;
use vstd::prelude::*;
use vstd::string::StrSliceExecFns;
use vstd::string::StringExecFns;

verus! {

/// What a character of the line becomes before splitting: a comma gets a space on
/// either side, any other character stays as it is.
pub open spec fn padded(c: char) -> Seq<char> {
    if c == ',' {
        seq![' ', ',', ' ']
    } else {
        seq![c]
    }
}

/// `line` with a single space inserted on both sides of every comma.
pub open spec fn pad_commas(line: Seq<char>) -> Seq<char>
    decreases line.len(),
{
    if line.len() == 0 {
        Seq::empty()
    } else {
        pad_commas(line.drop_last()) + padded(line.last())
    }
}

/// The maximal runs of characters of `s` that are not white space, from left to right.
pub open spec fn split_whitespace(s: Seq<char>) -> Seq<Seq<char>>
    decreases s.len(),
{
    if s.len() == 0 {
        Seq::empty()
    } else {
        let front = s.drop_last();
        let words = split_whitespace(front);
        if is_whitespace(s.last()) {
            words
        } else if front.len() > 0 && !is_whitespace(front.last()) {
            words.drop_last().push(words.last().push(s.last()))
        } else {
            words.push(seq![s.last()])
        }
    }
}

/// The tokens of a line: spaces are put around every comma, then the line is split
/// at its runs of white space.
pub open spec fn tokens_of(line: Seq<char>) -> Seq<Seq<char>> {
    split_whitespace(pad_commas(line))
}

/// A character that ends the word before it.
pub open spec fn is_separator(c: char) -> bool {
    is_whitespace(c) || c == ','
}

/// The tokens of `line` with one more character `c` after it.
pub open spec fn tokens_with(line: Seq<char>, c: char) -> Seq<Seq<char>> {
    let before = tokens_of(line);
    if is_whitespace(c) {
        before
    } else if c == ',' {
        before.push(seq![','])
    } else if line.len() > 0 && !is_separator(line.last()) {
        before.drop_last().push(before.last().push(c))
    } else {
        before.push(seq![c])
    }
}

proof fn lemma_pad_commas_last(line: Seq<char>)
    ensures
        line.len() == 0 ==> pad_commas(line).len() == 0,
        line.len() > 0 ==> pad_commas(line).len() > 0 && (is_whitespace(pad_commas(line).last())
            <==> is_separator(line.last())),
{
}

/// Reading one more character either leaves the tokens as they are (white space),
/// adds the token `,` (a comma), lengthens the last token (the word goes on) or
/// starts a new token.
pub proof fn lemma_tokens_of_push(line: Seq<char>, c: char)
    ensures
        tokens_of(line.push(c)) == tokens_with(line, c),
{
    let whole = line.push(c);
    let front = pad_commas(line);
    assert(whole.drop_last() =~= line);
    lemma_pad_commas_last(line);
    if c == ',' {
        // the comma arrives as a space, the comma and another space
        let one = front.push(' ');
        let two = one.push(',');
        let three = two.push(' ');
        assert(pad_commas(whole) =~= three);
        assert(three.drop_last() =~= two);
        assert(two.drop_last() =~= one);
        assert(one.drop_last() =~= front);
        assert(split_whitespace(one) == split_whitespace(front));
        assert(split_whitespace(two) == split_whitespace(front).push(seq![',']));
    } else {
        let one = front.push(c);
        assert(pad_commas(whole) =~= one);
        assert(one.drop_last() =~= front);
    }
}

/// The tokenizer's guarantees: no token is empty, a token is either the single
/// comma or free of commas and white space, and the tokens read one after another
/// are the line without its white space, so they follow the order of the source.
/// A line that ends in a word has that word as its last token.
pub proof fn lemma_tokens_are_well_formed(line: Seq<char>)
    ensures
        forall|i: int|
            0 <= i < tokens_of(line).len() ==> is_token(#[trigger] tokens_of(line)[i]),
        tokens_of(line).flatten() == line.filter(|c: char| !is_whitespace(c)),
        line.len() > 0 && !is_separator(line.last()) ==> tokens_of(line).len() > 0
            && tokens_of(line).last().last() == line.last(),
    decreases line.len(),
{
    if line.len() > 0 {
        let keep = |c: char| !is_whitespace(c);
        let front = line.drop_last();
        let c = line.last();
        let before = tokens_of(front);
        let now = tokens_of(line);
        lemma_tokens_are_well_formed(front);
        lemma_tokens_of_push(front, c);
        assert(front.push(c) =~= line);
        assert(line.filter(keep) == if keep(c) {
            front.filter(keep).push(c)
        } else {
            front.filter(keep)
        }) by {
            reveal(Seq::filter);
        }
        if !is_whitespace(c) {
            if c == ',' || front.len() == 0 || is_separator(front.last()) {
                // `c` is a token of its own, or starts one
                before.lemma_flatten_push(seq![c]);
            } else {
                // `c` lengthens the last token, which is a word
                let last = before.last();
                let longer = last.push(c);
                assert(is_token(longer)) by {
                    assert(longer.last() == c);
                    assert forall|k: int| 0 <= k < longer.len() implies !is_separator(
                        #[trigger] longer[k],
                    ) by {
                        if k < last.len() {
                            assert(longer[k] == last[k]);
                        }
                    }
                }
                assert(now.flatten() =~= before.flatten().push(c)) by {
                    before.drop_last().lemma_flatten_push(longer);
                    before.drop_last().lemma_flatten_push(last);
                    assert(before.drop_last().push(last) =~= before);
                }
            }
        }
    }
}

/// A well-formed token: the single comma, or a non-empty word without commas and
/// without white space.
pub open spec fn is_token(t: Seq<char>) -> bool {
    t.len() > 0 && (t == seq![','] || forall|k: int|
        0 <= k < t.len() ==> !is_separator(#[trigger] t[k]))
}

/// Splits a line into its tokens.
pub fn tokenize(line: &str) -> (tokens: Vec<String>)
    ensures
        tokens.deep_view() == tokens_of(line@),
{
    let len: usize = line.unicode_len();
    let mut tokens: Vec<String> = Vec::new();
    // The word that is being read begins at `start`.
    let mut start: usize = 0;
    let mut i: usize = 0;
    for c in it: line.chars()
        invariant
            it.seq() == line@,
            i == it.index(),
            len == line@.len(),
            start <= i,
            start == 0 || is_separator(line@[start - 1]),
            forall|k: int| start <= k < i ==> !is_separator(#[trigger] line@[k]),
            tokens_of(line@.take(i as int)) == if start < i {
                tokens.deep_view().push(line@.subrange(start as int, i as int))
            } else {
                tokens.deep_view()
            },
    {
        let ghost done = tokens.deep_view();
        let ghost word = line@.subrange(start as int, i as int);
        proof {
            lemma_tokens_of_push(line@.take(i as int), c);
            assert(line@.take(i as int).push(c) =~= line@.take(i + 1));
        }
        let comma = c == ',';
        if comma || char_is_whitespace(c) {
            if start < i {
                tokens.push(String::from_str(line.substring_char(start, i)));
                assert(tokens.deep_view() =~= done.push(word));
            }
            if comma {
                proof {
                    reveal_strlit(",");
                    assert(","@ =~= seq![',']);
                }
                tokens.push(String::from_str(","));
            }
            start = i + 1;
        } else {
            assert(line@.subrange(start as int, i + 1) =~= word.push(c));
            assert(start == i ==> word.push(c) =~= seq![c]);
        }
        i += 1;
    }
    assert(line@.take(i as int) =~= line@);
    if start < i {
        tokens.push(String::from_str(line.substring_char(start, i)));
    }
    tokens
}

} // verus!
