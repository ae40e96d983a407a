//! The instruction data model: memory references, compute instructions and
//! labels, together with the spec-level views that the contracts speak of.

use vstd::prelude::*;

verus! {

/// Destination register set of a compute instruction.
#[derive(Clone, Copy, PartialEq, Eq, Debug)]
pub enum Dest {
    M,
    D,
    MD,
    A,
    AM,
    AD,
    AMD,
}

/// Jump condition of a compute instruction.
#[derive(Clone, Copy, PartialEq, Eq, Debug)]
pub enum Jump {
    JGT,
    JEQ,
    JGE,
    JLT,
    JNE,
    JLE,
    JMP,
}

/// The 28 compute operation codes of the ALU.
#[derive(Clone, Copy, PartialEq, Eq, Debug)]
pub enum Comp {
    Zero,
    One,
    NegOne,
    D,
    A,
    NotD,
    NotA,
    NegD,
    NegA,
    IncD,
    IncA,
    DecD,
    DecA,
    DPlusA,
    DMinusA,
    AMinusD,
    DAndA,
    DOrA,
    M,
    NotM,
    NegM,
    IncM,
    DecM,
    DPlusM,
    DMinusM,
    MMinusD,
    DAndM,
    DOrM,
}

/// A compute instruction: optional destination, mandatory operation,
/// optional jump condition.
#[derive(Clone, Copy, PartialEq, Eq, Debug)]
pub struct Compute {
    pub dest: Option<Dest>,
    pub comp: Comp,
    pub jump: Option<Jump>,
}

/// The address of a memory-reference instruction: either a numeric constant
/// or a not yet resolved symbolic name (ASCII bytes).
#[derive(Clone, PartialEq, Eq, Debug)]
pub enum Address {
    Constant(u16),
    Symbol(Vec<u8>),
}

/// One parsed instruction.  A `Label` marks the address of the next
/// executable instruction and is itself never encoded.
#[derive(Clone, PartialEq, Eq, Debug)]
pub enum Instruction {
    A(Address),
    C(Compute),
    Label(Vec<u8>),
}

/// Spec-level view of an [`Address`]: the symbol is a byte sequence.
pub enum AddressView {
    Constant(u16),
    Symbol(Seq<u8>),
}

/// Spec-level view of an [`Instruction`].
pub enum InstructionView {
    A(AddressView),
    C(Compute),
    Label(Seq<u8>),
}

impl View for Address {
    type V = AddressView;

    open spec fn view(&self) -> AddressView {
        match self {
            Address::Constant(v) => AddressView::Constant(*v),
            Address::Symbol(s) => AddressView::Symbol(s@),
        }
    }
}

impl View for Instruction {
    type V = InstructionView;

    open spec fn view(&self) -> InstructionView {
        match self {
            Instruction::A(a) => InstructionView::A(a@),
            Instruction::C(c) => InstructionView::C(*c),
            Instruction::Label(s) => InstructionView::Label(s@),
        }
    }
}

/// The views of a sequence of instructions, in order.
pub open spec fn views(v: Seq<Instruction>) -> Seq<InstructionView> {
    v.map_values(|i: Instruction| i@)
}

} // verus!
