//! The assembly instruction forms, their operands, and their ghost
//! models.

use vstd::prelude::*;
use crate::zil::symbols::UnaryInstructionOperator;

verus! {

/// An assembly program: a sequence of functions.
pub type Program = Vec<Function>;

/// A function: its identifier and its ordered instruction list.
#[derive(Debug)]
pub struct Function {
    pub identifier: String,
    pub instructions: Vec<Instruction>,
}

/// An assembly instruction: a move (source, then destination), a unary
/// operation in place at its operand, a stack-frame allocation in bytes,
/// or a return.
#[derive(Debug)]
pub enum Instruction {
    Mov(Opd, Opd),
    Unary(UnaryOp, Opd),
    AllocateStack(i32),
    Ret,
}

/// The unary machine operations: bitwise not and arithmetic negation.
#[derive(Debug, Clone, Copy, PartialEq, Eq, Structural)]
pub enum UnaryOp {
    Not,
    Neg,
}

impl From<UnaryInstructionOperator> for UnaryOp {
    fn from(op: UnaryInstructionOperator) -> (r: Self) {
        match op {
            UnaryInstructionOperator::Negate => UnaryOp::Neg,
            UnaryInstructionOperator::Complement => UnaryOp::Not,
        }
    }
}

impl vstd::std_specs::convert::FromSpecImpl<UnaryInstructionOperator> for UnaryOp {
    open spec fn obeys_from_spec() -> bool {
        true
    }

    open spec fn from_spec(op: UnaryInstructionOperator) -> Self {
        match op {
            UnaryInstructionOperator::Negate => UnaryOp::Neg,
            UnaryInstructionOperator::Complement => UnaryOp::Not,
        }
    }
}

/// An operand: an immediate carrying its literal spelling, a physical
/// register, or a stack slot at a signed byte offset from the frame base.
#[derive(Debug, PartialEq)]
pub enum Opd {
    Imm(String),
    Reg(Reg),
    Stack(i32),
}

/// The physical registers the selector uses: the return register and the
/// reserved scratch register for operand fixup.
#[derive(Debug, Clone, Copy, PartialEq, Eq, Structural)]
pub enum Reg {
    AX,
    R10D,
}

/// The assembler spelling of a register.
pub open spec fn reg_text(r: Reg) -> Seq<char> {
    match r {
        Reg::AX => "%eax"@,
        Reg::R10D => "%r10d"@,
    }
}

impl Reg {
    /// Writes the register as its assembler operand text.
    pub fn operand(&self) -> (r: String)
        ensures
            r@ == reg_text(*self),
    {
        match self {
            Reg::AX => "%eax".to_owned(),
            Reg::R10D => "%r10d".to_owned(),
        }
    }
}

/// Ghost image of an operand.
pub enum OpdModel {
    Imm(Seq<char>),
    Reg(Reg),
    Stack(int),
}

/// Ghost image of an assembly instruction.
pub enum AsmInstrModel {
    Mov(OpdModel, OpdModel),
    Unary(UnaryOp, OpdModel),
    AllocateStack(int),
    Ret,
}

/// Ghost image of an assembly function.
pub struct AsmFunModel {
    pub identifier: Seq<char>,
    pub instructions: Seq<AsmInstrModel>,
}

impl View for Opd {
    type V = OpdModel;

    open spec fn view(&self) -> OpdModel {
        match self {
            Opd::Imm(s) => OpdModel::Imm(s@),
            Opd::Reg(r) => OpdModel::Reg(*r),
            Opd::Stack(off) => OpdModel::Stack(*off as int),
        }
    }
}

impl View for Instruction {
    type V = AsmInstrModel;

    open spec fn view(&self) -> AsmInstrModel {
        match self {
            Instruction::Mov(src, dst) => AsmInstrModel::Mov(src@, dst@),
            Instruction::Unary(op, dst) => AsmInstrModel::Unary(*op, dst@),
            Instruction::AllocateStack(n) => AsmInstrModel::AllocateStack(*n as int),
            Instruction::Ret => AsmInstrModel::Ret,
        }
    }
}

impl View for Function {
    type V = AsmFunModel;

    open spec fn view(&self) -> AsmFunModel {
        AsmFunModel {
            identifier: self.identifier@,
            instructions: asm_instr_models(self.instructions@),
        }
    }
}

/// Ghost image of an assembly instruction sequence.
pub open spec fn asm_instr_models(v: Seq<Instruction>) -> Seq<AsmInstrModel> {
    v.map_values(|i: Instruction| i@)
}

/// Ghost image of a whole assembly program.
pub open spec fn asm_program_model(p: Seq<Function>) -> Seq<AsmFunModel> {
    p.map_values(|f: Function| f@)
}

/// A move instruction whose operands are both stack slots: the form the
/// operand fixup pass must have rewritten away.
pub open spec fn is_stack_to_stack_mov(i: AsmInstrModel) -> bool {
    i matches AsmInstrModel::Mov(OpdModel::Stack(_), OpdModel::Stack(_))
}

} // verus!
