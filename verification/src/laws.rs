//! What holds of every encoded word and of every run of the driver.

use crate::assemble::encode_line;
use crate::assemble::is_conditional_jump;
use crate::assemble::is_known_mnemonic;
use crate::assemble::lemma_program_of_concat;
use crate::assemble::outcomes_of;
use crate::assemble::words_of;
use crate::assemble::program_of;
use crate::assemble::LineOutcome;
use crate::encode::access_bit;
use crate::encode::arith_word;
use crate::encode::encode_arith;
use crate::encode::encode_jump;
use crate::encode::encode_load;
use crate::encode::encode_store;
use crate::encode::is_immediate_load;
use crate::encode::jump_condition;
use crate::encode::jump_word;
use crate::encode::load_word;
use crate::encode::store_word;
use crate::encode::ADD_CODE;
use crate::encode::JUMP_WORD;
use crate::encode::SUB_CODE;
use crate::encode::STORE_FIELD;
use crate::error::result_view;
use crate::error::EncodeError;
use crate::error::ErrorView;
use crate::error::Table;
use crate::immediate::immediate_of;
use crate::immediate::MAX_IMMEDIATE;
use crate::tables::lemma_entries_fit;
use crate::tables::lemma_jump_table;
use crate::tables::lookup;
use crate::tokens::tokens_of;
use vstd::prelude::*;

verus! {

/// The fields of an arithmetic word, from the top: three set bits, the access
/// bit, the five bits of the operation code, a clear bit, the three bits of the
/// target, and three clear bits.
pub proof fn lemma_arith_word_fields(access: u16, code: u16, target: u16)
    requires
        access <= 1,
        code < 32,
        target < 8,
    ensures
        arith_word(access, code, target) >> 13 == 0b111,
        (arith_word(access, code, target) >> 12) & 1 == access,
        (arith_word(access, code, target) >> 7) & 0x1F == code,
        (arith_word(access, code, target) >> 6) & 1 == 0,
        (arith_word(access, code, target) >> 3) & 0b111 == target,
        arith_word(access, code, target) & 0b111 == 0,
{
    let w = arith_word(access, code, target);
    assert(w >> 13 == 0b111 && (w >> 12) & 1 == access && (w >> 7) & 0x1F == code && (w >> 6) & 1
        == 0 && (w >> 3) & 0b111 == target && w & 0b111 == 0) by (bit_vector)
        requires
            w == 0xE000u16 | (access << 12) | (code << 7) | (target << 3),
            access <= 1,
            code < 32,
            target < 8,
    ;
}

/// An arithmetic line that encodes, with an operation code of five bits: the three
/// top bits of its word are set, and the access bit is set exactly when the
/// access token is `(A)`; so the four top bits read `1110` exactly when the
/// access token is `A`.
pub proof fn lemma_arith_access_bit(rest: Seq<Seq<char>>, code: u16)
    requires
        encode_arith(rest, code) is Ok,
        code < 32,
    ensures
        encode_arith(rest, code)->Ok_0 >> 13 == 0b111,
        (encode_arith(rest, code)->Ok_0 >> 12) & 1 == 1 <==> rest[4] == "(A)"@,
        encode_arith(rest, code)->Ok_0 >> 12 == 0b1110 <==> rest[4] == "A"@,
{
    let w = encode_arith(rest, code)->Ok_0;
    let access = access_bit(rest[4])->Ok_0;
    let target = lookup(Table::Target, rest[0])->Ok_0;
    lemma_entries_fit(Table::Target, rest[0]);
    lemma_arith_word_fields(access, code, target);
    reveal_strlit("A");
    reveal_strlit("(A)");
    assert("A"@.len() != "(A)"@.len());
    assert(w >> 12 == 0b1110 <==> (w >> 12) & 1 == 0) by (bit_vector)
        requires
            w >> 13 == 0b111,
    ;
}

/// An `ADD` or `SUB` line that encodes: its word joins the program, the three top
/// bits of the word are set, and the access bit is set exactly when the access
/// token, the last of the line, is `(A)`; so the four top bits read `1110`
/// exactly when the access token is `A`.
pub proof fn lemma_arith_line_access_bit(tokens: Seq<Seq<char>>)
    requires
        tokens.len() > 0,
        tokens[0] == "ADD"@ || tokens[0] == "SUB"@,
        encode_line(tokens) is Ok,
    ensures
        tokens.len() == 6,
        encode_line(tokens)->Ok_0 is Emitted,
        encode_line(tokens)->Ok_0->Emitted_0 >> 13 == 0b111,
        (encode_line(tokens)->Ok_0->Emitted_0 >> 12) & 1 == 1 <==> tokens[5] == "(A)"@,
        encode_line(tokens)->Ok_0->Emitted_0 >> 12 == 0b1110 <==> tokens[5] == "A"@,
{
    reveal_strlit("ADD");
    reveal_strlit("SUB");
    let rest = tokens.skip(1);
    let code = if tokens[0] == "ADD"@ {
        ADD_CODE
    } else {
        SUB_CODE
    };
    lemma_arith_access_bit(rest, code);
}

/// A load in the immediate shape: the word is the number itself, which has at
/// most 15 bits, so the top bit of the word is clear.
pub proof fn lemma_immediate_load(rest: Seq<Seq<char>>)
    requires
        rest.len() == 3,
        is_immediate_load(rest),
    ensures
        encode_load(rest) == Ok::<u16, ErrorView>(immediate_of(rest[2])->Some_0),
        encode_load(rest)->Ok_0 <= MAX_IMMEDIATE,
        encode_load(rest)->Ok_0 & 0x8000 == 0,
        encode_load(rest)->Ok_0 & 0x7FFF == encode_load(rest)->Ok_0,
{
    let w = encode_load(rest)->Ok_0;
    assert(w & 0x8000 == 0 && w & 0x7FFF == w) by (bit_vector)
        requires
            w <= 32767,
    ;
}

/// A load in the register shape that encodes: the three top bits are set, the
/// source stands in bits 6 to 12 and the target in bits 3 to 5.
pub proof fn lemma_register_load_fields(rest: Seq<Seq<char>>)
    requires
        encode_load(rest) is Ok,
        !is_immediate_load(rest),
    ensures
        encode_load(rest)->Ok_0 >> 13 == 0b111,
        (encode_load(rest)->Ok_0 >> 6) & 0x7F == lookup(Table::Source, rest[2])->Ok_0,
        (encode_load(rest)->Ok_0 >> 3) & 0b111 == lookup(Table::Target, rest[0])->Ok_0,
        encode_load(rest)->Ok_0 & 0b111 == 0,
{
    let source = lookup(Table::Source, rest[2])->Ok_0;
    let target = lookup(Table::Target, rest[0])->Ok_0;
    lemma_entries_fit(Table::Source, rest[2]);
    lemma_entries_fit(Table::Target, rest[0]);
    let w = load_word(source, target);
    assert(w >> 13 == 0b111 && (w >> 6) & 0x7F == source && (w >> 3) & 0b111 == target && w
        & 0b111 == 0) by (bit_vector)
        requires
            w == 0xE000u16 | (source << 6) | (target << 3),
            source < 128,
            target < 8,
    ;
}

/// A store that encodes: the three top bits are set, the source stands in bits 6
/// to 12, and the six low bits hold the fixed store field.
pub proof fn lemma_store_fields(rest: Seq<Seq<char>>)
    requires
        encode_store(rest) is Ok,
    ensures
        encode_store(rest)->Ok_0 >> 13 == 0b111,
        (encode_store(rest)->Ok_0 >> 6) & 0x7F == lookup(Table::Source, rest[2])->Ok_0,
        encode_store(rest)->Ok_0 & 0x3F == STORE_FIELD,
{
    let source = lookup(Table::Source, rest[2])->Ok_0;
    lemma_entries_fit(Table::Source, rest[2]);
    let w = store_word(source);
    assert(w >> 13 == 0b111 && (w >> 6) & 0x7F == source && w & 0x3F == 0b001000) by (bit_vector)
        requires
            w == 0xE000u16 | (source << 6) | 0b001000u16,
            source < 128,
    ;
}

/// A conditional jump that encodes: the three top bits are set, the source stands
/// in bits 6 to 12, and the three low bits hold the condition, which is not zero.
pub proof fn lemma_jump_fields(mnemonic: Seq<char>, rest: Seq<Seq<char>>)
    requires
        encode_jump(mnemonic, rest) is Ok,
    ensures
        encode_jump(mnemonic, rest)->Ok_0 >> 13 == 0b111,
        (encode_jump(mnemonic, rest)->Ok_0 >> 6) & 0x7F == lookup(Table::Source, rest[0])->Ok_0,
        encode_jump(mnemonic, rest)->Ok_0 & 0b111 == jump_condition(mnemonic)->Ok_0,
        (encode_jump(mnemonic, rest)->Ok_0 >> 3) & 0b111 == 0,
        jump_condition(mnemonic)->Ok_0 != 0,
{
    let source = lookup(Table::Source, rest[0])->Ok_0;
    let jump = jump_condition(mnemonic)->Ok_0;
    lemma_entries_fit(Table::Source, rest[0]);
    lemma_entries_fit(Table::Jump, mnemonic.skip(1));
    let w = jump_word(source, jump);
    assert(w >> 13 == 0b111 && (w >> 6) & 0x7F == source && w & 0b111 == jump && (w >> 3) & 0b111
        == 0) by (bit_vector)
        requires
            w == 0xE000u16 | (source << 6) | jump,
            source < 128,
            jump < 8,
    ;
}

/// The six conditional jumps that the dispatcher knows are the mnemonics that the
/// jump table gives a condition, so a line that the dispatcher routes to the jump
/// encoder never fails for its mnemonic.
pub proof fn lemma_conditional_jumps_have_conditions(mnemonic: Seq<char>)
    ensures
        is_conditional_jump(mnemonic) <==> jump_condition(mnemonic) is Ok,
        mnemonic == "JGT"@ ==> jump_condition(mnemonic) == Ok::<u16, ErrorView>(0b001u16),
        mnemonic == "JEQ"@ ==> jump_condition(mnemonic) == Ok::<u16, ErrorView>(0b010u16),
        mnemonic == "JGE"@ ==> jump_condition(mnemonic) == Ok::<u16, ErrorView>(0b011u16),
        mnemonic == "JLT"@ ==> jump_condition(mnemonic) == Ok::<u16, ErrorView>(0b100u16),
        mnemonic == "JNE"@ ==> jump_condition(mnemonic) == Ok::<u16, ErrorView>(0b101u16),
        mnemonic == "JLE"@ ==> jump_condition(mnemonic) == Ok::<u16, ErrorView>(0b110u16),
{
    reveal_strlit("JGT");
    reveal_strlit("JEQ");
    reveal_strlit("JGE");
    reveal_strlit("JLT");
    reveal_strlit("JNE");
    reveal_strlit("JLE");
    reveal_strlit("GT");
    reveal_strlit("EQ");
    reveal_strlit("GE");
    reveal_strlit("LT");
    reveal_strlit("NE");
    reveal_strlit("LE");
    lemma_jump_table(mnemonic.skip(1));
    if mnemonic.len() > 0 && mnemonic[0] == 'J' {
        let key = mnemonic.skip(1);
        assert(mnemonic =~= seq!['J'] + key);
        assert(key == "GT"@ ==> mnemonic =~= "JGT"@);
        assert(key == "EQ"@ ==> mnemonic =~= "JEQ"@);
        assert(key == "GE"@ ==> mnemonic =~= "JGE"@);
        assert(key == "LT"@ ==> mnemonic =~= "JLT"@);
        assert(key == "NE"@ ==> mnemonic =~= "JNE"@);
        assert(key == "LE"@ ==> mnemonic =~= "JLE"@);
    }
    assert(mnemonic == "JGT"@ ==> mnemonic.skip(1) =~= "GT"@ && mnemonic[0] == 'J');
    assert(mnemonic == "JEQ"@ ==> mnemonic.skip(1) =~= "EQ"@ && mnemonic[0] == 'J');
    assert(mnemonic == "JGE"@ ==> mnemonic.skip(1) =~= "GE"@ && mnemonic[0] == 'J');
    assert(mnemonic == "JLT"@ ==> mnemonic.skip(1) =~= "LT"@ && mnemonic[0] == 'J');
    assert(mnemonic == "JNE"@ ==> mnemonic.skip(1) =~= "NE"@ && mnemonic[0] == 'J');
    assert(mnemonic == "JLE"@ ==> mnemonic.skip(1) =~= "LE"@ && mnemonic[0] == 'J');
}

/// A line that begins with `JMP` gives the fixed jump word, whatever follows the
/// mnemonic.
pub proof fn lemma_jmp_ignores_operands(tokens: Seq<Seq<char>>)
    requires
        tokens.len() > 0,
        tokens[0] == "JMP"@,
    ensures
        encode_line(tokens) == Ok::<LineOutcome, ErrorView>(LineOutcome::Emitted(JUMP_WORD)),
        JUMP_WORD == 0b1110101010000111,
{
    reveal_strlit("JMP");
    reveal_strlit("ADD");
    reveal_strlit("SUB");
}

/// A line is passed over exactly when its first token is no known mnemonic or it
/// has no token at all, and then without an error. Only a conditional jump is
/// checked without joining the program.
pub proof fn lemma_unknown_mnemonic_is_skipped(tokens: Seq<Seq<char>>)
    ensures
        encode_line(tokens) == Ok::<LineOutcome, ErrorView>(LineOutcome::Skipped) <==> tokens.len()
            == 0 || !is_known_mnemonic(tokens[0]),
        encode_line(tokens) matches Ok(LineOutcome::Checked(_)) ==> tokens.len() > 0
            && is_conditional_jump(tokens[0]),
{
}

/// A line with an unknown mnemonic adds no word and does not end the run: the
/// program is the one of the lines around it.
pub proof fn lemma_unknown_line_changes_nothing(
    before: Seq<Seq<char>>,
    line: Seq<char>,
    after: Seq<Seq<char>>,
)
    requires
        tokens_of(line).len() == 0 || !is_known_mnemonic(tokens_of(line)[0]),
    ensures
        program_of(seq![line]) == Ok::<Seq<u16>, ErrorView>(Seq::empty()),
        program_of(before + seq![line] + after) == program_of(before + after),
{
    lemma_single_line(line);
    lemma_program_of_concat(before, seq![line]);
    lemma_program_of_concat(before + seq![line], after);
    lemma_program_of_concat(before, after);
}

/// A line that fails ends the run with its error, whatever the lines after it,
/// provided no line before it fails.
pub proof fn lemma_failing_line_ends_the_run(
    before: Seq<Seq<char>>,
    line: Seq<char>,
    after: Seq<Seq<char>>,
)
    requires
        program_of(before) is Ok,
        encode_line(tokens_of(line)) is Err,
    ensures
        program_of(before + seq![line] + after) == Err::<Seq<u16>, ErrorView>(
            encode_line(tokens_of(line))->Err_0,
        ),
{
    lemma_single_line(line);
    lemma_program_of_concat(before, seq![line]);
    lemma_program_of_concat(before + seq![line], after);
}

/// The program of a single line.
pub proof fn lemma_single_line(line: Seq<char>)
    ensures
        program_of(seq![line]) == match encode_line(tokens_of(line)) {
            Ok(LineOutcome::Emitted(word)) => Ok::<Seq<u16>, ErrorView>(seq![word]),
            Ok(_) => Ok(Seq::empty()),
            Err(e) => Err(e),
        },
{
    let lines = seq![line];
    assert(outcomes_of(lines.drop_last()) == Ok::<Seq<LineOutcome>, ErrorView>(Seq::empty()));
    if let Ok(outcome) = encode_line(tokens_of(line)) {
        let outcomes = Seq::<LineOutcome>::empty().push(outcome);
        assert(words_of(outcomes.drop_last()) =~= Seq::<u16>::empty());
    }
}

/// A line with a known mnemonic and the wrong number of operand tokens fails with
/// the arity error that names both numbers. `JMP` takes any number of operands.
pub proof fn lemma_wrong_arity_fails(tokens: Seq<Seq<char>>)
    requires
        tokens.len() > 0,
        is_known_mnemonic(tokens[0]),
        tokens[0] != "JMP"@,
        tokens.len() - 1 != operand_count(tokens[0]),
    ensures
        encode_line(tokens) == Err::<LineOutcome, ErrorView>(
            ErrorView::ArityMismatch {
                expected: operand_count(tokens[0]),
                got: (tokens.len() - 1) as nat,
            },
        ),
{
    lemma_conditional_jumps_have_conditions(tokens[0]);
    reveal_strlit("ADD");
    reveal_strlit("SUB");
    reveal_strlit("JMP");
    reveal_strlit("STR");
    reveal_strlit("LDR");
    reveal_strlit("JGT");
    reveal_strlit("JEQ");
    reveal_strlit("JGE");
    reveal_strlit("JLT");
    reveal_strlit("JNE");
    reveal_strlit("JLE");
}

/// The number of operand tokens that the instruction `mnemonic` takes.
pub open spec fn operand_count(mnemonic: Seq<char>) -> nat {
    if mnemonic == "ADD"@ || mnemonic == "SUB"@ {
        5
    } else if mnemonic == "STR"@ || mnemonic == "LDR"@ {
        3
    } else {
        1
    }
}

/// Encoding is a function of the tokens alone: two results of the dispatcher for
/// the same tokens are the same outcome or the same error.
pub proof fn lemma_encoding_is_repeatable(
    tokens: Seq<Seq<char>>,
    first: Result<LineOutcome, EncodeError>,
    second: Result<LineOutcome, EncodeError>,
)
    requires
        result_view(first) == encode_line(tokens),
        result_view(second) == encode_line(tokens),
    ensures
        first is Ok ==> first == second,
        first is Err ==> second is Err && first->Err_0@ == second->Err_0@,
{
}

} // verus!
