//! An assembler that owns its lookup tables and builds them when they are first
//! needed.

use crate::assemble::go_through_lines;
use crate::assemble::program_of;
use crate::assemble::program_view;
use crate::error::EncodeError;
use crate::source::normal_lines;
use crate::source::normalize_lines;
use crate::tables::LookupTables;
use once_cell::sync::OnceCell;
use vstd::prelude::*;

verus! {

/// `once_cell::sync::OnceCell`, a cell that is written at most once through a
/// shared reference. It is carried as an opaque value.
#[verifier::external_type_specification]
#[verifier::external_body]
#[verifier::reject_recursive_types(T)]
pub struct ExOnceCell<T>(once_cell::sync::OnceCell<T>);

/// `once_cell::sync::OnceCell::new`, which makes an empty cell. A cell is opaque
/// here, so nothing is stated of it.
pub assume_specification<T>[ once_cell::sync::OnceCell::<T>::new ]() -> (cell: OnceCell<T>)
;

/// `once_cell::sync::OnceCell::get_or_init` with [`LookupTables::new`] as the
/// initialiser: it hands out what the cell holds, after filling an empty cell with
/// freshly built tables. The initialiser neither panics nor touches the cell, so
/// the call returns. A cell changes behind a shared reference, so no function of
/// its value can say what it holds, and nothing is stated of the result: whichever
/// tables come back, they are a `LookupTables` value.
#[verifier::external_body]
fn get_or_build(cell: &OnceCell<LookupTables>) -> (tables: &LookupTables) {
    cell.get_or_init(LookupTables::new)
}

/// An assembler. Its lookup tables are built once, by the first call that needs
/// them, and only read from then on.
pub struct Assembler {
    tables: OnceCell<LookupTables>,
}

impl Assembler {
    /// An assembler whose tables are not built yet.
    pub fn new() -> (assembler: Assembler) {
        Assembler { tables: OnceCell::new() }
    }

    /// The lookup tables, built now if no call has built them before.
    pub fn tables(&self) -> (tables: &LookupTables)
        ensures
            tables.is_complete(),
    {
        let tables = get_or_build(&self.tables);
        proof {
            use_type_invariant(tables);
        }
        tables
    }

    /// Assembles normalized lines. See [`go_through_lines`].
    pub fn assemble_lines(&self, lines: Vec<String>) -> (r: Result<Vec<u16>, EncodeError>)
        ensures
            program_view(r) == program_of(lines.deep_view()),
    {
        go_through_lines(self.tables(), lines)
    }

    /// Assembles the text of a source file: the text is split into its normalized
    /// lines, and these are assembled in order.
    pub fn assemble(&self, contents: &str) -> (r: Result<Vec<u16>, EncodeError>)
        ensures
            program_view(r) == program_of(normal_lines(contents@)),
    {
        go_through_lines(self.tables(), normalize_lines(contents))
    }
}

} // verus!
