//! The abstract syntax tree: declarations, statements and expressions,
//! together with their ghost models.

use vstd::prelude::*;

verus! {

/// A program is an ordered sequence of top-level declarations.
pub type Program = Vec<Declaration>;

/// A top-level declaration. Functions are the only kind supported.
#[derive(Debug)]
pub enum Declaration {
    Function(FunctionDefinition),
}

/// A function: a name and the ordered statements of its body.
#[derive(Debug)]
pub struct FunctionDefinition {
    pub name: String,
    pub statements: Vec<Statement>,
}

/// A statement of a function body. Returning a value is the only kind
/// supported.
#[derive(Debug)]
pub enum Statement {
    Return(Expression),
}

/// An expression: an integer constant, or a unary operator applied to a
/// sub-expression. Ownership is strictly parent to child, so the tree is
/// finite and acyclic.
#[derive(Debug)]
pub enum Expression {
    Constant(ConstantValue),
    Unary(UnaryExpressionType, Box<Expression>),
}

/// A constant: the exact source spelling of an integer literal.
#[derive(Debug)]
pub enum ConstantValue {
    Int(String),
}

/// The unary operators.
#[derive(Debug, Clone, Copy, PartialEq, Eq, Structural)]
pub enum UnaryExpressionType {
    Complement,
    Negation,
}

/// Ghost image of an expression, with literal spellings as character
/// sequences.
pub enum ExprModel {
    Constant(Seq<char>),
    Unary(UnaryExpressionType, Box<ExprModel>),
}

/// Ghost image of a statement.
pub enum StmtModel {
    Return(ExprModel),
}

/// Ghost image of a function definition.
pub struct FunModel {
    pub name: Seq<char>,
    pub statements: Seq<StmtModel>,
}

/// Ghost image of a declaration.
pub enum DeclModel {
    Function(FunModel),
}

/// Ghost image of an expression tree.
pub open spec fn expr_model(e: Expression) -> ExprModel
    decreases e,
{
    match e {
        Expression::Constant(ConstantValue::Int(s)) => ExprModel::Constant(s@),
        Expression::Unary(op, sub) => ExprModel::Unary(op, Box::new(expr_model(*sub))),
    }
}

impl View for Expression {
    type V = ExprModel;

    open spec fn view(&self) -> ExprModel {
        expr_model(*self)
    }
}

impl View for Statement {
    type V = StmtModel;

    open spec fn view(&self) -> StmtModel {
        match self {
            Statement::Return(e) => StmtModel::Return(e@),
        }
    }
}

impl View for FunctionDefinition {
    type V = FunModel;

    open spec fn view(&self) -> FunModel {
        FunModel { name: self.name@, statements: self.statements@.map_values(|s: Statement| s@) }
    }
}

impl View for Declaration {
    type V = DeclModel;

    open spec fn view(&self) -> DeclModel {
        match self {
            Declaration::Function(f) => DeclModel::Function(f@),
        }
    }
}

/// Ghost image of a whole program.
pub open spec fn program_model(p: Seq<Declaration>) -> Seq<DeclModel> {
    p.map_values(|d: Declaration| d@)
}

/// How many unary operators an expression holds.
pub open spec fn expr_unary_count(e: ExprModel) -> nat
    decreases e,
{
    match e {
        ExprModel::Constant(_) => 0,
        ExprModel::Unary(_, sub) => 1 + expr_unary_count(*sub),
    }
}

/// How many unary operators a statement holds.
pub open spec fn stmt_unary_count(s: StmtModel) -> nat {
    match s {
        StmtModel::Return(e) => expr_unary_count(e),
    }
}

/// How many unary operators a function body holds in all.
pub open spec fn stmts_unary_count(ss: Seq<StmtModel>) -> nat
    decreases ss.len(),
{
    if ss.len() == 0 {
        0
    } else {
        stmt_unary_count(ss[0]) + stmts_unary_count(ss.drop_first())
    }
}

/// How many unary operators a declaration holds in all.
pub open spec fn decl_unary_count(d: DeclModel) -> nat {
    match d {
        DeclModel::Function(f) => stmts_unary_count(f.statements),
    }
}

} // verus!
