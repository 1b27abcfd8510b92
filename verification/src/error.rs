//! Structured parse failures.  Every failure is fatal to the whole parse
//! and carries the offending token, label or section context.

use vstd::prelude::*;

verus! {

/// Which required piece of an instruction's operand syntax was violated.
#[derive(Debug, Clone, Copy, PartialEq, Eq, Structural)]
pub enum OperandIssue {
    /// A `MOV` source token does not end with the required comma.
    MovNoComma,
    /// `MOV` with no source token.
    MovNoSource,
    /// `MOV` with no destination token.
    MovNoDest,
    /// `ADD` with no operand token.
    AddNoSource,
    /// `SUB` with no operand token.
    SubNoSource,
    /// `JRO` with no operand token.
    JroNoSource,
    /// `JMP` with no label token.
    JmpNoLabel,
    /// `JEZ` with no label token.
    JezNoLabel,
    /// `JNZ` with no label token.
    JnzNoLabel,
    /// `JGZ` with no label token.
    JgzNoLabel,
    /// `JLZ` with no label token.
    JlzNoLabel,
}

/// A parse failure.
#[derive(Debug, Clone, PartialEq, Eq)]
pub enum ParseError {
    /// The document is empty or its first line is not the section-0 header;
    /// carries the first line (empty for an empty document).
    Header { found: String },
    /// A section header is out of sequence or past the last section number;
    /// carries the expected number and the header line found.
    SectionSequence { expected: u32, found: String },
    /// A section's body did not end with a blank line before the next
    /// header; carries the number of the offending section.
    SectionTermination { section: u32 },
    /// A label name declared twice within one program.
    DuplicateLabel { label: String },
    /// A line's first token matches no mnemonic and is not a comment.
    UnknownInstruction { token: String },
    /// A required operand token is missing or malformed at the syntax level.
    OperandSyntax { issue: OperandIssue },
    /// A token is neither a location keyword nor an in-range integer
    /// literal.
    InvalidOperand { token: String },
}

/// Mathematical view of a `ParseError`.
#[verifier::ext_equal]
pub enum ErrorView {
    Header { found: Seq<char> },
    SectionSequence { expected: int, found: Seq<char> },
    SectionTermination { section: int },
    DuplicateLabel { label: Seq<char> },
    UnknownInstruction { token: Seq<char> },
    OperandSyntax { issue: OperandIssue },
    InvalidOperand { token: Seq<char> },
}

impl View for ParseError {
    type V = ErrorView;

    open spec fn view(&self) -> ErrorView {
        match self {
            ParseError::Header { found } => ErrorView::Header { found: found@ },
            ParseError::SectionSequence { expected, found } => ErrorView::SectionSequence {
                expected: *expected as int,
                found: found@,
            },
            ParseError::SectionTermination { section } => ErrorView::SectionTermination {
                section: *section as int,
            },
            ParseError::DuplicateLabel { label } => ErrorView::DuplicateLabel { label: label@ },
            ParseError::UnknownInstruction { token } => ErrorView::UnknownInstruction {
                token: token@,
            },
            ParseError::OperandSyntax { issue } => ErrorView::OperandSyntax { issue: *issue },
            ParseError::InvalidOperand { token } => ErrorView::InvalidOperand { token: token@ },
        }
    }
}

impl DeepView for ParseError {
    type V = ErrorView;

    open spec fn deep_view(&self) -> ErrorView {
        self.view()
    }
}

} // verus!
