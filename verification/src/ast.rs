//! The parsed representation: operand targets, sources, instructions,
//! positioned instructions, per-node programs and the whole spec, together
//! with their mathematical views.

use vstd::prelude::*;

verus! {

/// A symbolic operand target: one of the four port directions or a register.
#[derive(Debug, Clone, Copy, PartialEq, Eq, Structural)]
pub enum Loc {
    Left,
    Right,
    Up,
    Down,
    Acc,
    Last,
}

/// A value an instruction consumes: a signed 16-bit literal or a `Loc`.
#[derive(Debug, Clone, Copy, PartialEq, Eq, Structural)]
pub enum Source {
    Val(i16),
    Loc(Loc),
}

/// One parsed instruction.  Jump variants carry the target label's name;
/// `Comment` carries the comment text rejoined with single spaces.
/// `Comment` and `Emptyline` are structural markers that a program does
/// not retain.
#[derive(Debug, Clone, PartialEq, Eq)]
pub enum Instr {
    Nop,
    Mov(Source, Loc),
    Swp,
    Sav,
    Add(Source),
    Sub(Source),
    Neg,
    Jmp(String),
    Jez(String),
    Jnz(String),
    Jgz(String),
    Jlz(String),
    Jro(Source),
    Comment(String),
    Emptyline,
}

/// Mathematical view of an `Instr`: label and comment text as `Seq<char>`.
#[verifier::ext_equal]
pub enum InstrView {
    Nop,
    Mov(Source, Loc),
    Swp,
    Sav,
    Add(Source),
    Sub(Source),
    Neg,
    Jmp(Seq<char>),
    Jez(Seq<char>),
    Jnz(Seq<char>),
    Jgz(Seq<char>),
    Jlz(Seq<char>),
    Jro(Source),
    Comment(Seq<char>),
    Emptyline,
}

impl View for Instr {
    type V = InstrView;

    open spec fn view(&self) -> InstrView {
        match self {
            Instr::Nop => InstrView::Nop,
            Instr::Mov(s, l) => InstrView::Mov(*s, *l),
            Instr::Swp => InstrView::Swp,
            Instr::Sav => InstrView::Sav,
            Instr::Add(s) => InstrView::Add(*s),
            Instr::Sub(s) => InstrView::Sub(*s),
            Instr::Neg => InstrView::Neg,
            Instr::Jmp(l) => InstrView::Jmp(l@),
            Instr::Jez(l) => InstrView::Jez(l@),
            Instr::Jnz(l) => InstrView::Jnz(l@),
            Instr::Jgz(l) => InstrView::Jgz(l@),
            Instr::Jlz(l) => InstrView::Jlz(l@),
            Instr::Jro(s) => InstrView::Jro(*s),
            Instr::Comment(t) => InstrView::Comment(t@),
            Instr::Emptyline => InstrView::Emptyline,
        }
    }
}

impl DeepView for Instr {
    type V = InstrView;

    open spec fn deep_view(&self) -> InstrView {
        self.view()
    }
}

/// Whether an instruction is retained in a program: comments and blank-line
/// markers are dropped, everything else is kept.
pub open spec fn is_retained(i: InstrView) -> bool {
    !(i is Comment || i is Emptyline)
}

/// An instruction paired with its 0-based position among the retained
/// instructions of its program.
#[derive(Debug, Clone, PartialEq, Eq)]
pub struct InstrAndPos {
    pub instr: Instr,
    pub pos: usize,
}

impl View for InstrAndPos {
    type V = (InstrView, int);

    open spec fn view(&self) -> (InstrView, int) {
        (self.instr@, self.pos as int)
    }
}

impl DeepView for InstrAndPos {
    type V = (InstrView, int);

    open spec fn deep_view(&self) -> (InstrView, int) {
        self.view()
    }
}

/// Mathematical view of a `Program`: the retained instructions in order,
/// each with its position, and the label table as an association list in
/// declaration order.
#[verifier::ext_equal]
pub struct ProgramView {
    pub instrs: Seq<(InstrView, int)>,
    pub labels: Seq<(Seq<char>, int)>,
}

impl ProgramView {
    /// Well-formedness: label names are pairwise distinct, every label
    /// index is at most the instruction count, every retained instruction
    /// is tagged with its own index, and no comment or blank-line marker
    /// is retained.
    pub open spec fn wf(self) -> bool {
        &&& forall|k1: int, k2: int|
            0 <= k1 < k2 < self.labels.len() ==> self.labels[k1].0 != self.labels[k2].0
        &&& forall|k: int| 0 <= k < self.labels.len() ==> 0 <= #[trigger] self.labels[k].1
            <= self.instrs.len()
        &&& forall|k: int| 0 <= k < self.instrs.len() ==> #[trigger] self.instrs[k].1 == k
        &&& forall|k: int| 0 <= k < self.instrs.len() ==> is_retained(
            #[trigger] self.instrs[k].0,
        )
    }
}

/// The views of a label table's entries, in declaration order.
pub open spec fn label_entries_view(labels: Seq<(String, usize)>) -> Seq<(Seq<char>, int)> {
    labels.map_values(|p: (String, usize)| (p.0@, p.1 as int))
}

/// One node's program: its retained instructions in order and its label
/// table, labels mapped to the index of the next retained instruction.
#[derive(Debug, Clone, PartialEq, Eq)]
pub struct Program {
    pub instrs: Vec<InstrAndPos>,
    pub labels: Vec<(String, usize)>,
}

impl View for Program {
    type V = ProgramView;

    open spec fn view(&self) -> ProgramView {
        ProgramView { instrs: self.instrs.deep_view(), labels: label_entries_view(self.labels@) }
    }
}

impl DeepView for Program {
    type V = ProgramView;

    open spec fn deep_view(&self) -> ProgramView {
        self.view()
    }
}

/// Mathematical view of a `Spec`.
#[verifier::ext_equal]
pub struct SpecView {
    pub programs: Seq<ProgramView>,
}

/// The parser's output: the programs of all sections, ordered by section
/// number.
#[derive(Debug, Clone, PartialEq, Eq)]
pub struct Spec {
    pub programs: Vec<Program>,
}

impl View for Spec {
    type V = SpecView;

    open spec fn view(&self) -> SpecView {
        SpecView { programs: self.programs.deep_view() }
    }
}

impl DeepView for Spec {
    type V = SpecView;

    open spec fn deep_view(&self) -> SpecView {
        self.view()
    }
}

} // verus!
