//! One encoder per instruction family: arithmetic, load, store and conditional jump.

use crate::error::compare_equal_strings;
use crate::error::compare_length;
use crate::error::length_check;
use crate::error::result_view;
use crate::error::token_check;
use crate::error::EncodeError;
use crate::error::ErrorView;
use crate::error::Table;
use crate::immediate::immediate_of;
use crate::immediate::parse_immediate;
use crate::tables::lookup;
use crate::tables::LookupTables;
use crate::text::str_eq;
use vstd::prelude::*;
use vstd::string::StrSliceExecFns;

verus! {

/// The three top bits that every word but an immediate load starts with.
pub const INSTRUCTION_PREFIX: u16 = 0b1110_0000_0000_0000;

/// The operation code of `ADD`.
pub const ADD_CODE: u16 = 0b00010;

/// The operation code of `SUB`.
pub const SUB_CODE: u16 = 0b01011;

/// The fixed low field of a store.
pub const STORE_FIELD: u16 = 0b001000;

/// The word of the unconditional jump.
pub const JUMP_WORD: u16 = 0b1110_1010_1000_0111;

/// The word of an arithmetic instruction.
pub open spec fn arith_word(access: u16, code: u16, target: u16) -> u16 {
    INSTRUCTION_PREFIX | (access << 12) | (code << 7) | (target << 3)
}

/// The word of a register load.
pub open spec fn load_word(source: u16, target: u16) -> u16 {
    INSTRUCTION_PREFIX | (source << 6) | (target << 3)
}

/// The word of a store.
pub open spec fn store_word(source: u16) -> u16 {
    INSTRUCTION_PREFIX | (source << 6) | STORE_FIELD
}

/// The word of a conditional jump.
pub open spec fn jump_word(source: u16, jump: u16) -> u16 {
    INSTRUCTION_PREFIX | (source << 6) | jump
}

/// The access bit of an arithmetic operand: 0 for the register `A`, 1 for the
/// memory cell `(A)`.
pub open spec fn access_bit(token: Seq<char>) -> Result<u16, ErrorView> {
    if token == "A"@ {
        Ok(0u16)
    } else if token == "(A)"@ {
        Ok(1u16)
    } else {
        Err(ErrorView::UnknownAccessMode { token })
    }
}

/// The word of an arithmetic instruction with the operand tokens `rest`, which must
/// read `TARGET , D , ACCESS`, or the error of the first check that fails.
pub open spec fn encode_arith(rest: Seq<Seq<char>>, code: u16) -> Result<u16, ErrorView> {
    if let Err(e) = length_check(rest.len(), 5) {
        Err(e)
    } else if let Err(e) = lookup(Table::Target, rest[0]) {
        Err(e)
    } else if let Err(e) = token_check(rest[1], ","@) {
        Err(e)
    } else if let Err(e) = token_check(rest[2], "D"@) {
        Err(e)
    } else if let Err(e) = token_check(rest[3], ","@) {
        Err(e)
    } else if let Err(e) = access_bit(rest[4]) {
        Err(e)
    } else {
        Ok(arith_word(access_bit(rest[4])->Ok_0, code, lookup(Table::Target, rest[0])->Ok_0))
    }
}

/// Whether the three operand tokens `rest` have the immediate shape `A , $N`.
pub open spec fn is_immediate_load(rest: Seq<Seq<char>>) -> bool {
    rest[0] == "A"@ && rest[1] == ","@ && immediate_of(rest[2]) is Some
}

/// The word of a load with the operand tokens `rest`: the immediate value where
/// they read `A , $N`, else the register load `TARGET , SRC`, or the error of the
/// first check of the register shape that fails.
pub open spec fn encode_load(rest: Seq<Seq<char>>) -> Result<u16, ErrorView> {
    if let Err(e) = length_check(rest.len(), 3) {
        Err(e)
    } else if is_immediate_load(rest) {
        Ok(immediate_of(rest[2])->Some_0)
    } else if let Err(e) = lookup(Table::Target, rest[0]) {
        Err(e)
    } else if let Err(e) = token_check(rest[1], ","@) {
        Err(e)
    } else if let Err(e) = lookup(Table::Source, rest[2]) {
        Err(e)
    } else {
        Ok(load_word(lookup(Table::Source, rest[2])->Ok_0, lookup(Table::Target, rest[0])->Ok_0))
    }
}

/// The word of a store with the operand tokens `rest`, which must read
/// `(A) , SRC`, or the error of the first check that fails.
pub open spec fn encode_store(rest: Seq<Seq<char>>) -> Result<u16, ErrorView> {
    if let Err(e) = length_check(rest.len(), 3) {
        Err(e)
    } else if let Err(e) = token_check(rest[0], "(A)"@) {
        Err(e)
    } else if let Err(e) = token_check(rest[1], ","@) {
        Err(e)
    } else if let Err(e) = lookup(Table::Source, rest[2]) {
        Err(e)
    } else {
        Ok(store_word(lookup(Table::Source, rest[2])->Ok_0))
    }
}

/// The bits of the condition that a jump mnemonic names: the mnemonic is a `J`
/// followed by a key of the jump table. The error names the whole mnemonic.
pub open spec fn jump_condition(mnemonic: Seq<char>) -> Result<u16, ErrorView> {
    if mnemonic.len() > 0 && mnemonic[0] == 'J' && lookup(Table::Jump, mnemonic.skip(1)) is Ok {
        lookup(Table::Jump, mnemonic.skip(1))
    } else {
        Err(ErrorView::UnknownSymbol { table: Table::Jump, token: mnemonic })
    }
}

/// The word of the conditional jump `mnemonic` with the operand tokens `rest`,
/// which must hold one source, or the error of the first check that fails.
pub open spec fn encode_jump(mnemonic: Seq<char>, rest: Seq<Seq<char>>) -> Result<u16, ErrorView> {
    if let Err(e) = jump_condition(mnemonic) {
        Err(e)
    } else if let Err(e) = length_check(rest.len(), 1) {
        Err(e)
    } else if let Err(e) = lookup(Table::Source, rest[0]) {
        Err(e)
    } else {
        Ok(jump_word(lookup(Table::Source, rest[0])->Ok_0, jump_condition(mnemonic)->Ok_0))
    }
}

/// Reads the access mode of an arithmetic operand.
pub fn parse_access(token: &str) -> (r: Result<u16, EncodeError>)
    ensures
        result_view(r) == access_bit(token@),
{
    if str_eq(token, "A") {
        Ok(0)
    } else if str_eq(token, "(A)") {
        Ok(1)
    } else {
        Err(EncodeError::UnknownAccessMode { token: token.to_owned() })
    }
}

/// Encodes `ADD` or `SUB`, told apart by `instruction_code`, from the operand
/// tokens `rest`.
pub fn process_add_or_sub_instruction(
    tables: &LookupTables,
    rest: &[String],
    instruction_code: u16,
) -> (r: Result<u16, EncodeError>)
    ensures
        result_view(r) == encode_arith(rest.deep_view(), instruction_code),
{
    compare_length(rest.len(), 5)?;
    let target: u16 = tables.lookup(Table::Target, rest[0].as_str())?;
    compare_equal_strings(rest[1].as_str(), ",")?;
    compare_equal_strings(rest[2].as_str(), "D")?;
    compare_equal_strings(rest[3].as_str(), ",")?;
    let access: u16 = parse_access(rest[4].as_str())?;
    Ok(INSTRUCTION_PREFIX | (access << 12) | (instruction_code << 7) | (target << 3))
}

/// Encodes `LDR` from the operand tokens `rest`: first as an immediate load, and
/// where the tokens do not have that shape, as a register load.
pub fn process_ldr_instructions(tables: &LookupTables, rest: &[String]) -> (r: Result<
    u16,
    EncodeError,
>)
    ensures
        result_view(r) == encode_load(rest.deep_view()),
{
    compare_length(rest.len(), 3)?;
    if str_eq(rest[0].as_str(), "A") && str_eq(rest[1].as_str(), ",") {
        if let Some(number) = parse_immediate(rest[2].as_str()) {
            return Ok(number);
        }
    }
    let target: u16 = tables.lookup(Table::Target, rest[0].as_str())?;
    compare_equal_strings(rest[1].as_str(), ",")?;
    let source: u16 = tables.lookup(Table::Source, rest[2].as_str())?;
    Ok(INSTRUCTION_PREFIX | (source << 6) | (target << 3))
}

/// Encodes `STR` from the operand tokens `rest`.
pub fn process_str_instruction(tables: &LookupTables, rest: &[String]) -> (r: Result<
    u16,
    EncodeError,
>)
    ensures
        result_view(r) == encode_store(rest.deep_view()),
{
    compare_length(rest.len(), 3)?;
    compare_equal_strings(rest[0].as_str(), "(A)")?;
    compare_equal_strings(rest[1].as_str(), ",")?;
    let source: u16 = tables.lookup(Table::Source, rest[2].as_str())?;
    Ok(INSTRUCTION_PREFIX | (source << 6) | STORE_FIELD)
}

/// Reads the condition of a jump mnemonic.
pub fn parse_jump_condition(tables: &LookupTables, mnemonic: &str) -> (r: Result<
    u16,
    EncodeError,
>)
    ensures
        result_view(r) == jump_condition(mnemonic@),
{
    let len: usize = mnemonic.unicode_len();
    if len > 0 && mnemonic.get_char(0) == 'J' {
        let condition = mnemonic.substring_char(1, len);
        assert(condition@ =~= mnemonic@.skip(1));
        if let Ok(bits) = tables.lookup(Table::Jump, condition) {
            return Ok(bits);
        }
    }
    Err(EncodeError::UnknownSymbol { table: Table::Jump, token: mnemonic.to_owned() })
}

/// Encodes the conditional jump `instruction` from the operand tokens `rest`.
pub fn process_jump_instruction(
    tables: &LookupTables,
    instruction: &str,
    rest: &[String],
) -> (r: Result<u16, EncodeError>)
    ensures
        result_view(r) == encode_jump(instruction@, rest.deep_view()),
{
    let jump: u16 = parse_jump_condition(tables, instruction)?;
    compare_length(rest.len(), 1)?;
    let source: u16 = tables.lookup(Table::Source, rest[0].as_str())?;
    Ok(INSTRUCTION_PREFIX | (source << 6) | jump)
}

} // verus!
