//! The dispatcher, which routes a tokenized line to its encoder, and the program
//! driver, which turns a sequence of lines into the sequence of instruction words.

use crate::encode::encode_arith;
use crate::encode::encode_jump;
use crate::encode::encode_load;
use crate::encode::encode_store;
use crate::encode::process_add_or_sub_instruction;
use crate::encode::process_jump_instruction;
use crate::encode::process_ldr_instructions;
use crate::encode::process_str_instruction;
use crate::encode::ADD_CODE;
use crate::encode::JUMP_WORD;
use crate::encode::SUB_CODE;
use crate::error::result_view;
use crate::error::EncodeError;
use crate::error::ErrorView;
use crate::tables::LookupTables;
use crate::text::str_eq;
use crate::tokens::tokenize;
use crate::tokens::tokens_of;
use vstd::prelude::*;
use vstd::slice::slice_subrange;

verus! {

/// What became of one line.
#[derive(Debug, Clone, Copy, PartialEq, Eq, Structural)]
pub enum LineOutcome {
    /// The line is an instruction, and its word joins the program.
    Emitted(u16),
    /// The line is a conditional jump. Its operands were checked and its word was
    /// computed, but the word does not join the program.
    Checked(u16),
    /// The first token is no known mnemonic, or the line has no token: the line is
    /// passed over.
    Skipped,
}

/// The mnemonics of the six conditional jumps.
pub open spec fn is_conditional_jump(mnemonic: Seq<char>) -> bool {
    ||| mnemonic == "JGT"@
    ||| mnemonic == "JEQ"@
    ||| mnemonic == "JGE"@
    ||| mnemonic == "JLT"@
    ||| mnemonic == "JNE"@
    ||| mnemonic == "JLE"@
}

/// The mnemonics that the dispatcher knows.
pub open spec fn is_known_mnemonic(mnemonic: Seq<char>) -> bool {
    ||| mnemonic == "ADD"@
    ||| mnemonic == "SUB"@
    ||| mnemonic == "JMP"@
    ||| mnemonic == "STR"@
    ||| mnemonic == "LDR"@
    ||| is_conditional_jump(mnemonic)
}

/// The outcome of a line whose encoder returned `word`, for an instruction whose
/// word joins the program.
pub open spec fn emitted(word: Result<u16, ErrorView>) -> Result<LineOutcome, ErrorView> {
    match word {
        Ok(w) => Ok(LineOutcome::Emitted(w)),
        Err(e) => Err(e),
    }
}

/// The outcome of a line whose encoder returned `word`, for a conditional jump.
pub open spec fn checked(word: Result<u16, ErrorView>) -> Result<LineOutcome, ErrorView> {
    match word {
        Ok(w) => Ok(LineOutcome::Checked(w)),
        Err(e) => Err(e),
    }
}

/// The outcome of the line with the tokens `tokens`: the first token selects the
/// encoder, which gets the remaining tokens.
pub open spec fn encode_line(tokens: Seq<Seq<char>>) -> Result<LineOutcome, ErrorView> {
    if tokens.len() == 0 {
        Ok(LineOutcome::Skipped)
    } else {
        let mnemonic = tokens[0];
        let rest = tokens.skip(1);
        if mnemonic == "ADD"@ {
            emitted(encode_arith(rest, ADD_CODE))
        } else if mnemonic == "SUB"@ {
            emitted(encode_arith(rest, SUB_CODE))
        } else if mnemonic == "JMP"@ {
            Ok(LineOutcome::Emitted(JUMP_WORD))
        } else if mnemonic == "STR"@ {
            emitted(encode_store(rest))
        } else if mnemonic == "LDR"@ {
            emitted(encode_load(rest))
        } else if is_conditional_jump(mnemonic) {
            checked(encode_jump(mnemonic, rest))
        } else {
            Ok(LineOutcome::Skipped)
        }
    }
}

/// The outcomes of the lines `lines`, one for each line in order, or the error of
/// the first line that fails.
pub open spec fn outcomes_of(lines: Seq<Seq<char>>) -> Result<Seq<LineOutcome>, ErrorView>
    decreases lines.len(),
{
    if lines.len() == 0 {
        Ok(Seq::empty())
    } else {
        match outcomes_of(lines.drop_last()) {
            Err(e) => Err(e),
            Ok(outcomes) => match encode_line(tokens_of(lines.last())) {
                Err(e) => Err(e),
                Ok(outcome) => Ok(outcomes.push(outcome)),
            },
        }
    }
}

/// The words among `outcomes` that join the program, in order.
pub open spec fn words_of(outcomes: Seq<LineOutcome>) -> Seq<u16>
    decreases outcomes.len(),
{
    if outcomes.len() == 0 {
        Seq::empty()
    } else {
        match outcomes.last() {
            LineOutcome::Emitted(word) => words_of(outcomes.drop_last()).push(word),
            LineOutcome::Checked(_) => words_of(outcomes.drop_last()),
            LineOutcome::Skipped => words_of(outcomes.drop_last()),
        }
    }
}

/// The program of the lines `lines`: the emitted words of their outcomes, in the
/// order of the lines, or the error of the first line that fails. With an error
/// no word is kept, and no line after the failing one counts.
pub open spec fn program_of(lines: Seq<Seq<char>>) -> Result<Seq<u16>, ErrorView> {
    match outcomes_of(lines) {
        Ok(outcomes) => Ok(words_of(outcomes)),
        Err(e) => Err(e),
    }
}

/// A result of [`line_outcomes`] with the outcomes and the error replaced by
/// their views.
pub open spec fn outcomes_view(r: Result<Vec<LineOutcome>, EncodeError>) -> Result<
    Seq<LineOutcome>,
    ErrorView,
> {
    match r {
        Ok(outcomes) => Ok(outcomes@),
        Err(e) => Err(e@),
    }
}

/// A result of [`go_through_lines`] with the words and the error replaced by
/// their views.
pub open spec fn program_view(r: Result<Vec<u16>, EncodeError>) -> Result<Seq<u16>, ErrorView> {
    match r {
        Ok(words) => Ok(words@),
        Err(e) => Err(e@),
    }
}

/// Two results one after the other: the first error, or both values joined.
pub open spec fn joined<T>(
    first: Result<Seq<T>, ErrorView>,
    second: Result<Seq<T>, ErrorView>,
) -> Result<Seq<T>, ErrorView> {
    match first {
        Err(e) => Err(e),
        Ok(a) => match second {
            Err(e) => Err(e),
            Ok(b) => Ok(a + b),
        },
    }
}

/// The outcomes of two runs of lines, one after the other, are the outcomes of
/// the first followed by those of the second; the first error ends both.
pub proof fn lemma_outcomes_of_concat(first: Seq<Seq<char>>, second: Seq<Seq<char>>)
    ensures
        outcomes_of(first + second) == joined(outcomes_of(first), outcomes_of(second)),
    decreases second.len(),
{
    if second.len() > 0 {
        assert((first + second).drop_last() =~= first + second.drop_last());
        lemma_outcomes_of_concat(first, second.drop_last());
    }
}

/// The emitted words of outcomes one after the other are the emitted words of
/// the first followed by those of the second.
pub proof fn lemma_words_of_concat(first: Seq<LineOutcome>, second: Seq<LineOutcome>)
    ensures
        words_of(first + second) == words_of(first) + words_of(second),
    decreases second.len(),
{
    if second.len() > 0 {
        assert((first + second).drop_last() =~= first + second.drop_last());
        lemma_words_of_concat(first, second.drop_last());
        if let LineOutcome::Emitted(word) = second.last() {
            assert((words_of(first) + words_of(second.drop_last())).push(word) =~= words_of(first)
                + words_of(second.drop_last()).push(word));
        }
    }
}

/// Programs concatenate: the program of two runs of lines, one after the other,
/// is the program of the first followed by that of the second, and the first
/// error ends both.
pub proof fn lemma_program_of_concat(first: Seq<Seq<char>>, second: Seq<Seq<char>>)
    ensures
        program_of(first + second) == joined(program_of(first), program_of(second)),
{
    lemma_outcomes_of_concat(first, second);
    if let Ok(a) = outcomes_of(first) {
        if let Ok(b) = outcomes_of(second) {
            lemma_words_of_concat(a, b);
        }
    }
}

/// There is one outcome for each line, and at most one word for each outcome.
pub proof fn lemma_program_length(lines: Seq<Seq<char>>)
    ensures
        outcomes_of(lines) matches Ok(outcomes) ==> outcomes.len() == lines.len(),
        program_of(lines) matches Ok(words) ==> words.len() <= lines.len(),
    decreases lines.len(),
{
    if lines.len() > 0 {
        lemma_program_length(lines.drop_last());
        if let Ok(outcomes) = outcomes_of(lines.drop_last()) {
            if let Ok(outcome) = encode_line(tokens_of(lines.last())) {
                assert(outcomes.push(outcome).drop_last() =~= outcomes);
            }
        }
    }
}

/// Routes the tokens of one line to the encoder that its first token selects.
pub fn process_line(tables: &LookupTables, tokens: &[String]) -> (r: Result<
    LineOutcome,
    EncodeError,
>)
    ensures
        result_view(r) == encode_line(tokens.deep_view()),
{
    if tokens.len() == 0 {
        return Ok(LineOutcome::Skipped);
    }
    let mnemonic = tokens[0].as_str();
    let rest = slice_subrange(tokens, 1, tokens.len());
    assert(rest.deep_view() =~= tokens.deep_view().skip(1));
    if str_eq(mnemonic, "ADD") {
        Ok(LineOutcome::Emitted(process_add_or_sub_instruction(tables, rest, ADD_CODE)?))
    } else if str_eq(mnemonic, "SUB") {
        Ok(LineOutcome::Emitted(process_add_or_sub_instruction(tables, rest, SUB_CODE)?))
    } else if str_eq(mnemonic, "JMP") {
        Ok(LineOutcome::Emitted(JUMP_WORD))
    } else if str_eq(mnemonic, "STR") {
        Ok(LineOutcome::Emitted(process_str_instruction(tables, rest)?))
    } else if str_eq(mnemonic, "LDR") {
        Ok(LineOutcome::Emitted(process_ldr_instructions(tables, rest)?))
    } else if str_eq(mnemonic, "JGT") || str_eq(mnemonic, "JEQ") || str_eq(mnemonic, "JGE")
        || str_eq(mnemonic, "JLT") || str_eq(mnemonic, "JNE") || str_eq(mnemonic, "JLE") {
        Ok(LineOutcome::Checked(process_jump_instruction(tables, mnemonic, rest)?))
    } else {
        Ok(LineOutcome::Skipped)
    }
}

/// Assembles the lines in order into the sequence of their instruction words.
///
/// A line with an unknown mnemonic is passed over. A conditional jump is checked
/// and encoded like any instruction, but its word is not added to the sequence;
/// [`process_line`] hands that word out. The first line that fails ends the run
/// with its error.
pub fn go_through_lines(tables: &LookupTables, lines: Vec<String>) -> (r: Result<
    Vec<u16>,
    EncodeError,
>)
    ensures
        program_view(r) == program_of(lines.deep_view()),
        r matches Ok(words) ==> words.len() <= lines.len(),
{
    let mut list_of_instructions: Vec<u16> = Vec::new();
    let ghost all = lines.deep_view();
    let ghost mut outcomes: Seq<LineOutcome> = Seq::empty();
    let mut i: usize = 0;
    while i < lines.len()
        invariant
            i <= lines.len(),
            all == lines.deep_view(),
            outcomes_of(all.take(i as int)) == Ok::<Seq<LineOutcome>, ErrorView>(outcomes),
            list_of_instructions@ == words_of(outcomes),
            list_of_instructions.len() <= i,
        decreases lines.len() - i,
    {
        let split_line: Vec<String> = tokenize(lines[i].as_str());
        proof {
            assert(all.take(i + 1).drop_last() =~= all.take(i as int));
        }
        match process_line(tables, split_line.as_slice()) {
            Ok(outcome) => {
                proof {
                    assert(outcomes.push(outcome).drop_last() =~= outcomes);
                    outcomes = outcomes.push(outcome);
                }
                if let LineOutcome::Emitted(word) = outcome {
                    list_of_instructions.push(word);
                }
            },
            Err(e) => {
                proof {
                    lemma_outcomes_of_concat(all.take(i + 1), all.skip(i + 1));
                    assert(all.take(i + 1) + all.skip(i + 1) =~= all);
                }
                return Err(e);
            },
        }
        i += 1;
    }
    assert(all.take(i as int) =~= all);
    Ok(list_of_instructions)
}

/// Tells what became of every line, in order: which word it gave, whether that
/// word joins the program, or that the line was passed over. The first line that
/// fails ends the run with its error.
pub fn line_outcomes(tables: &LookupTables, lines: &[String]) -> (r: Result<
    Vec<LineOutcome>,
    EncodeError,
>)
    ensures
        outcomes_view(r) == outcomes_of(lines.deep_view()),
        r matches Ok(outcomes) ==> outcomes.len() == lines.len(),
{
    let mut outcomes: Vec<LineOutcome> = Vec::new();
    let ghost all = lines.deep_view();
    let mut i: usize = 0;
    while i < lines.len()
        invariant
            i <= lines.len(),
            all == lines.deep_view(),
            outcomes.len() == i,
            outcomes_of(all.take(i as int)) == Ok::<Seq<LineOutcome>, ErrorView>(outcomes@),
        decreases lines.len() - i,
    {
        let split_line: Vec<String> = tokenize(lines[i].as_str());
        proof {
            assert(all.take(i + 1).drop_last() =~= all.take(i as int));
        }
        match process_line(tables, split_line.as_slice()) {
            Ok(outcome) => {
                outcomes.push(outcome);
            },
            Err(e) => {
                proof {
                    lemma_outcomes_of_concat(all.take(i + 1), all.skip(i + 1));
                    assert(all.take(i + 1) + all.skip(i + 1) =~= all);
                }
                return Err(e);
            },
        }
        i += 1;
    }
    assert(all.take(i as int) =~= all);
    Ok(outcomes)
}

/// Collects the words that join the program from the outcomes of its lines.
pub fn emitted_words(outcomes: &[LineOutcome]) -> (words: Vec<u16>)
    ensures
        words@ == words_of(outcomes@),
{
    let mut words: Vec<u16> = Vec::new();
    let mut i: usize = 0;
    while i < outcomes.len()
        invariant
            i <= outcomes.len(),
            words@ == words_of(outcomes@.take(i as int)),
        decreases outcomes.len() - i,
    {
        proof {
            assert(outcomes@.take(i + 1).drop_last() =~= outcomes@.take(i as int));
        }
        if let LineOutcome::Emitted(word) = outcomes[i] {
            words.push(word);
        }
        i += 1;
    }
    assert(outcomes@.take(i as int) =~= outcomes@);
    words
}

} // verus!
