//! Parser for a small grid-node assembly language.
//!
//! A document is a sequence of numbered sections, each holding one node's
//! program: instruction lines with optional label prefixes, comments and
//! blank lines.  The parser turns the document into a `Spec` — an ordered
//! collection of `Program`s, each an instruction list plus a label index —
//! or reports a structured `ParseError`.

pub mod assemble;
pub mod ast;
pub mod error;
pub mod laws;
pub mod line;
pub mod operand;
pub mod program;
pub mod text;

pub use assemble::parse_spec;
pub use ast::Instr;
pub use ast::InstrAndPos;
pub use ast::Loc;
pub use ast::Program;
pub use ast::Source;
pub use ast::Spec;
pub use error::OperandIssue;
pub use error::ParseError;
pub use line::eat_comma;
pub use line::get_label;
pub use line::parse_line;
pub use line::parse_mov;
pub use operand::parse_lit;
pub use operand::parse_loc;
pub use operand::parse_source;
pub use program::parse_program;
pub use text::str_eq;
pub use text::tokenize;
