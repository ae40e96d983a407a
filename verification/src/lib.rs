//! A verified two-pass assembler for the Hack 16-bit machine.
//!
//! The library turns a symbolic assembly source text (given as a byte slice)
//! into a stream of 16-character binary lines, one per executable
//! instruction.  It has three parts:
//!
//! - [`parser`]: a recursive-descent parser from raw bytes to a sequence of
//!   typed instructions, tolerant of whitespace and `//` comments;
//! - [`encoder`]: the encoding of one fully resolved instruction as a
//!   16-character string of `'0'`/`'1'`;
//! - [`assembler`]: the symbol table and the two passes that bind labels,
//!   allocate variables and drive the encoder.
//!
//! Every function is specified against spec-level models of the grammar and
//! of the two passes, so the whole translation is pinned down input by input.

pub mod assembler;
pub mod ast;
pub mod encoder;
pub mod parser;
