//! The ways in which encoding a line can fail, and the two basic shape checks.

use crate::text::str_eq;
use vstd::prelude::*;

verus! {

/// One of the three lookup tables.
#[derive(Debug, Clone, Copy, PartialEq, Eq, Structural)]
pub enum Table {
    /// Jump conditions, three bits each.
    Jump,
    /// Operand sources, seven bits each.
    Source,
    /// Target registers, three bits each.
    Target,
}

/// Why a line could not be encoded.
#[derive(Debug, PartialEq, Eq)]
pub enum EncodeError {
    /// The instruction has `got` operand tokens where `expected` are needed.
    ArityMismatch { expected: usize, got: usize },
    /// `token` stands where the literal token `literal` must stand.
    UnexpectedToken { literal: String, token: String },
    /// `token` is not a key of `table`.
    UnknownSymbol { table: Table, token: String },
    /// `token` is neither `A` nor `(A)`.
    UnknownAccessMode { token: String },
}

/// The mathematical content of an [`EncodeError`].
pub enum ErrorView {
    ArityMismatch { expected: nat, got: nat },
    UnexpectedToken { literal: Seq<char>, token: Seq<char> },
    UnknownSymbol { table: Table, token: Seq<char> },
    UnknownAccessMode { token: Seq<char> },
}

impl View for EncodeError {
    type V = ErrorView;

    open spec fn view(&self) -> ErrorView {
        match *self {
            EncodeError::ArityMismatch { expected, got } => ErrorView::ArityMismatch {
                expected: expected as nat,
                got: got as nat,
            },
            EncodeError::UnexpectedToken { literal, token } => ErrorView::UnexpectedToken {
                literal: literal@,
                token: token@,
            },
            EncodeError::UnknownSymbol { table, token } => ErrorView::UnknownSymbol {
                table,
                token: token@,
            },
            EncodeError::UnknownAccessMode { token } => ErrorView::UnknownAccessMode {
                token: token@,
            },
        }
    }
}

impl Clone for EncodeError {
    fn clone(&self) -> (copy: EncodeError)
        ensures
            copy@ == self@,
    {
        match self {
            EncodeError::ArityMismatch { expected, got } => EncodeError::ArityMismatch {
                expected: *expected,
                got: *got,
            },
            EncodeError::UnexpectedToken { literal, token } => EncodeError::UnexpectedToken {
                literal: literal.clone(),
                token: token.clone(),
            },
            EncodeError::UnknownSymbol { table, token } => EncodeError::UnknownSymbol {
                table: *table,
                token: token.clone(),
            },
            EncodeError::UnknownAccessMode { token } => EncodeError::UnknownAccessMode {
                token: token.clone(),
            },
        }
    }
}

/// A result with its error replaced by the error's view.
pub open spec fn result_view<T>(r: Result<T, EncodeError>) -> Result<T, ErrorView> {
    match r {
        Ok(value) => Ok(value),
        Err(e) => Err(e@),
    }
}

/// The operand count `got` is accepted exactly when it is the `expected` one.
pub open spec fn length_check(got: nat, expected: nat) -> Result<(), ErrorView> {
    if got == expected {
        Ok(())
    } else {
        Err(ErrorView::ArityMismatch { expected, got })
    }
}

/// `token` is accepted exactly when it is the literal token `literal`.
pub open spec fn token_check(token: Seq<char>, literal: Seq<char>) -> Result<(), ErrorView> {
    if token == literal {
        Ok(())
    } else {
        Err(ErrorView::UnexpectedToken { literal, token })
    }
}

/// Checks the number of operand tokens of an instruction.
pub fn compare_length(rest_length: usize, expected_length: usize) -> (r: Result<(), EncodeError>)
    ensures
        result_view(r) == length_check(rest_length as nat, expected_length as nat),
{
    if rest_length != expected_length {
        Err(EncodeError::ArityMismatch { expected: expected_length, got: rest_length })
    } else {
        Ok(())
    }
}

/// Checks that the token `a` is the literal token `b`.
pub fn compare_equal_strings(a: &str, b: &str) -> (r: Result<(), EncodeError>)
    ensures
        result_view(r) == token_check(a@, b@),
{
    if str_eq(a, b) {
        Ok(())
    } else {
        Err(EncodeError::UnexpectedToken { literal: b.to_owned(), token: a.to_owned() })
    }
}

} // verus!
