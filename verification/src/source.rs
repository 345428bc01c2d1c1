//! From the text of a source file to its normalized lines: each line trimmed, put
//! in upper case, and kept only if something is left of it.

use crate::text::trim;
use crate::text::trim_str;
use vstd::prelude::*;
use vstd::string::StrSliceExecFns;

verus! {

/// The upper-case form of a string.
pub uninterp spec fn uppercase_of(s: Seq<char>) -> Seq<char>;

/// The standard library's `str::to_uppercase`, which maps every character to its
/// upper-case form by the Unicode tables; the contract gives the result the name
/// [`uppercase_of`] and says nothing else of it.
#[verifier::external_body]
fn to_uppercase(s: &str) -> (upper: String)
    ensures
        upper@ == uppercase_of(s@),
{
    s.to_uppercase()
}

/// The pieces of `text` between its line feeds. A text without line feed is one
/// piece, and a text with `n` line feeds has `n + 1` pieces, some of them empty.
pub open spec fn raw_lines(text: Seq<char>) -> Seq<Seq<char>>
    decreases text.len(),
{
    if text.len() == 0 {
        seq![Seq::empty()]
    } else {
        let before = raw_lines(text.drop_last());
        if text.last() == '\n' {
            before.push(Seq::empty())
        } else {
            before.drop_last().push(before.last().push(text.last()))
        }
    }
}

/// A line without the white space at its ends, in upper case.
pub open spec fn normal_line(raw: Seq<char>) -> Seq<char> {
    uppercase_of(trim(raw))
}

/// The normal forms of the lines `raws`, without those that are empty.
pub open spec fn normalized(raws: Seq<Seq<char>>) -> Seq<Seq<char>> {
    raws.map_values(|raw: Seq<char>| normal_line(raw)).filter(|line: Seq<char>| line.len() > 0)
}

/// The normalized lines of a source text.
pub open spec fn normal_lines(text: Seq<char>) -> Seq<Seq<char>> {
    normalized(raw_lines(text))
}

/// `lines` with `line` after it, unless `line` is empty.
pub open spec fn with_line(lines: Seq<Seq<char>>, line: Seq<char>) -> Seq<Seq<char>> {
    if line.len() > 0 {
        lines.push(line)
    } else {
        lines
    }
}

/// One more line adds its normal form, unless that is empty.
pub proof fn lemma_normalized_push(raws: Seq<Seq<char>>, raw: Seq<char>)
    ensures
        normalized(raws.push(raw)) == with_line(normalized(raws), normal_line(raw)),
{
    let normal = |raw: Seq<char>| normal_line(raw);
    let kept = |line: Seq<char>| line.len() > 0;
    assert(raws.push(raw).map_values(normal) =~= raws.map_values(normal).push(normal_line(raw)));
    assert(raws.map_values(normal).push(normal_line(raw)).drop_last() =~= raws.map_values(normal));
    reveal(Seq::filter);
}

/// No normalized line is empty.
pub proof fn lemma_normalized_lines_are_not_empty(raws: Seq<Seq<char>>)
    ensures
        forall|i: int|
            0 <= i < normalized(raws).len() ==> (#[trigger] normalized(raws)[i]).len() > 0,
{
    let normal = |raw: Seq<char>| normal_line(raw);
    let kept = |line: Seq<char>| line.len() > 0;
    assert forall|i: int| 0 <= i < normalized(raws).len() implies (#[trigger] normalized(
        raws,
    )[i]).len() > 0 by {
        raws.map_values(normal).lemma_filter_pred(kept, i);
    }
}

/// Adds `line` to `lines` unless it is empty.
pub fn keep_line(lines: &mut Vec<String>, line: String)
    ensures
        final(lines).deep_view() == with_line(old(lines).deep_view(), line@),
{
    if !line.as_str().is_empty() {
        lines.push(line);
    }
}

/// Splits the text of a source file into its normalized lines.
///
/// Every line is cut out of the text by character positions, which are counted
/// from the start of the text: the cost grows with the length of the text times
/// the number of its lines.
pub fn normalize_lines(contents: &str) -> (lines: Vec<String>)
    ensures
        lines.deep_view() == normal_lines(contents@),
        forall|i: int| 0 <= i < lines.len() ==> (#[trigger] lines[i])@.len() > 0,
{
    let len: usize = contents.unicode_len();
    let mut lines: Vec<String> = Vec::new();
    let ghost text = contents@;
    let ghost mut raws: Seq<Seq<char>> = Seq::empty();
    let mut start: usize = 0;
    let mut i: usize = 0;
    proof {
        assert(text.take(0) =~= Seq::<char>::empty());
    }
    for c in it: contents.chars()
        invariant
            it.seq() == text,
            text == contents@,
            i == it.index(),
            len == text.len(),
            start <= i,
            raw_lines(text.take(i as int)) == raws.push(text.subrange(start as int, i as int)),
            lines.deep_view() == normalized(raws),
    {
        proof {
            assert(text.take(i + 1).drop_last() =~= text.take(i as int));
        }
        if c == '\n' {
            let raw = contents.substring_char(start, i);
            keep_line(&mut lines, to_uppercase(trim_str(raw)));
            proof {
                lemma_normalized_push(raws, raw@);
                raws = raws.push(raw@);
                assert(text.subrange(i + 1, i + 1) =~= Seq::<char>::empty());
            }
            start = i + 1;
        } else {
            proof {
                assert(text.subrange(start as int, i + 1) =~= text.subrange(
                    start as int,
                    i as int,
                ).push(c));
            }
        }
        i += 1;
    }
    let raw = contents.substring_char(start, i);
    keep_line(&mut lines, to_uppercase(trim_str(raw)));
    proof {
        lemma_normalized_push(raws, raw@);
        assert(text.take(i as int) =~= text);
        lemma_normalized_lines_are_not_empty(raw_lines(text));
        assert forall|k: int| 0 <= k < lines.len() implies (#[trigger] lines[k])@.len() > 0 by {
            assert(lines.deep_view()[k] == lines[k]@);
        }
    }
    lines
}

} // verus!
