//! The three-address intermediate representation: flat instruction lists
//! over constants and named temporaries, together with their ghost models.

use vstd::prelude::*;

verus! {

/// An intermediate-representation program: a sequence of constructs.
pub type Program = Vec<Construct>;

/// A top-level construct. Functions are the only kind supported.
#[derive(Debug)]
pub enum Construct {
    Function(FunctionDefinition),
}

/// A function: its identifier and its ordered instruction list.
#[derive(Debug)]
pub struct FunctionDefinition {
    pub identifier: String,
    pub instructions: Vec<Instruction>,
}

/// An instruction: return a value, or apply a unary operator to a source
/// value and write the result to a destination.
#[derive(Debug)]
pub enum Instruction {
    Return(Value),
    Unary(UnaryInstructionDefinition),
}

/// The three addresses of a unary instruction.
#[derive(Debug)]
pub struct UnaryInstructionDefinition {
    pub operator: UnaryInstructionOperator,
    pub source: Value,
    pub destination: Value,
}

/// The unary operators of the intermediate representation.
#[derive(Debug, Clone, Copy, PartialEq, Eq, Structural)]
pub enum UnaryInstructionOperator {
    Complement,
    Negate,
}

/// A value: a constant's literal spelling, or the name of a synthesized
/// temporary.
#[derive(Debug, PartialEq)]
pub enum Value {
    Constant(String),
    Variable(String),
}

/// Ghost image of a value.
pub enum ValueModel {
    Constant(Seq<char>),
    Variable(Seq<char>),
}

/// Ghost image of an instruction.
pub enum InstrModel {
    Return(ValueModel),
    Unary { op: UnaryInstructionOperator, src: ValueModel, dst: ValueModel },
}

/// Ghost image of a function.
pub struct IrFunModel {
    pub identifier: Seq<char>,
    pub instructions: Seq<InstrModel>,
}

impl View for Value {
    type V = ValueModel;

    open spec fn view(&self) -> ValueModel {
        match self {
            Value::Constant(s) => ValueModel::Constant(s@),
            Value::Variable(s) => ValueModel::Variable(s@),
        }
    }
}

impl View for Instruction {
    type V = InstrModel;

    open spec fn view(&self) -> InstrModel {
        match self {
            Instruction::Return(v) => InstrModel::Return(v@),
            Instruction::Unary(d) => InstrModel::Unary {
                op: d.operator,
                src: d.source@,
                dst: d.destination@,
            },
        }
    }
}

impl View for FunctionDefinition {
    type V = IrFunModel;

    open spec fn view(&self) -> IrFunModel {
        IrFunModel {
            identifier: self.identifier@,
            instructions: instr_models(self.instructions@),
        }
    }
}

impl View for Construct {
    type V = IrFunModel;

    open spec fn view(&self) -> IrFunModel {
        match self {
            Construct::Function(f) => f@,
        }
    }
}

/// Ghost image of an instruction sequence.
pub open spec fn instr_models(v: Seq<Instruction>) -> Seq<InstrModel> {
    v.map_values(|i: Instruction| i@)
}

/// Ghost image of a whole intermediate-representation program.
pub open spec fn ir_program_model(p: Seq<Construct>) -> Seq<IrFunModel> {
    p.map_values(|c: Construct| c@)
}

} // verus!
