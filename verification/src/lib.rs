//! A single-pass assembler for a small accumulator machine with registers `A` and `D`
//! and memory addressed through `A`.
//!
//! Every recognised source line becomes one 16-bit instruction word. The crate is
//! organised from the leaves up:
//!
//! - [`text`] and [`error`] hold the shared helpers and the error type;
//! - [`tables`] holds the three lookup tables;
//! - [`tokens`] is the line tokenizer, [`immediate`] reads immediate operands;
//! - [`encode`] has one encoder for each instruction family;
//! - [`assemble`] is the dispatcher and the program driver;
//! - [`source`] turns the text of a file into normalized lines;
//! - [`assembler`] bundles all of it behind one value that owns its tables;
//! - [`laws`] states what holds of every word and of every run.

pub mod assemble;
pub mod assembler;
pub mod encode;
pub mod error;
pub mod immediate;
pub mod laws;
pub mod source;
pub mod tables;
pub mod text;
pub mod tokens;
