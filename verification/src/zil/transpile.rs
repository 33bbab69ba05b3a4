//! Lowering from the abstract syntax tree to the three-address
//! intermediate representation.
//!
//! Executable lowering is specified against the mathematical lowering
//! [`spec_lower_program`]. Each unary operation receives a fresh
//! temporary, named from a per-function counter, so every temporary is
//! written exactly once before any use, and a unary chain of depth `n`
//! lowers to exactly `n` unary instructions.

use vstd::prelude::*;
use vstd::string::*;
use crate::ast::symbols as ast_symbols;
use crate::ast::symbols::{
    expr_unary_count, program_model, stmt_unary_count, stmts_unary_count, ConstantValue,
    Declaration, DeclModel, Expression, ExprModel, FunModel, Statement, StmtModel,
    UnaryExpressionType,
};
use crate::decimal::{dec_str, u64_dec_string};
use crate::zil::symbols::{
    instr_models, ir_program_model, Construct, FunctionDefinition, Instruction, InstrModel,
    IrFunModel, Program, UnaryInstructionDefinition, UnaryInstructionOperator, Value, ValueModel,
};

verus! {

/// The intermediate-representation operator for a syntactic unary
/// operator.
pub open spec fn convert_op(op: UnaryExpressionType) -> UnaryInstructionOperator {
    match op {
        UnaryExpressionType::Complement => UnaryInstructionOperator::Complement,
        UnaryExpressionType::Negation => UnaryInstructionOperator::Negate,
    }
}

/// The name of the `k`-th synthesized temporary of function `f`.
pub open spec fn temp_name(f: Seq<char>, k: nat) -> Seq<char> {
    "fn."@ + f + "."@ + dec_str(k)
}

/// The mathematical lowering of one expression, with `k` temporaries
/// already used: the instructions appended, the value holding the result,
/// and the new temporary count. A constant lowers to its value directly;
/// a unary operation first lowers its operand, then appends one unary
/// instruction writing a fresh temporary.
pub open spec fn spec_lower_expression(e: ExprModel, f: Seq<char>, k: nat) -> (
    Seq<InstrModel>,
    ValueModel,
    nat,
)
    decreases e,
{
    match e {
        ExprModel::Constant(text) => (Seq::<InstrModel>::empty(), ValueModel::Constant(text), k),
        ExprModel::Unary(op, sub) => {
            let (ins, v, k2) = spec_lower_expression(*sub, f, k);
            let dst = ValueModel::Variable(temp_name(f, k2));
            (
                ins.push(InstrModel::Unary { op: convert_op(op), src: v, dst }),
                dst,
                k2 + 1,
            )
        },
    }
}

/// The mathematical lowering of a statement list: each return statement
/// lowers its expression and appends one return instruction.
pub open spec fn spec_lower_statements(ss: Seq<StmtModel>, f: Seq<char>, k: nat) -> (
    Seq<InstrModel>,
    nat,
)
    decreases ss.len(),
{
    if ss.len() == 0 {
        (Seq::<InstrModel>::empty(), k)
    } else {
        match ss[0] {
            StmtModel::Return(e) => {
                let (ins, v, k2) = spec_lower_expression(e, f, k);
                let (rest, k3) = spec_lower_statements(ss.drop_first(), f, k2);
                (ins.push(InstrModel::Return(v)) + rest, k3)
            },
        }
    }
}

/// The mathematical lowering of one function: its body lowered with the
/// temporary counter starting at zero (the counter is scoped to the
/// function).
pub open spec fn spec_lower_function(f: FunModel) -> IrFunModel {
    IrFunModel {
        identifier: f.name,
        instructions: spec_lower_statements(f.statements, f.name, 0).0,
    }
}

/// The mathematical lowering of a whole program, function by function.
pub open spec fn spec_lower_program(ds: Seq<DeclModel>) -> Seq<IrFunModel>
    decreases ds.len(),
{
    if ds.len() == 0 {
        Seq::<IrFunModel>::empty()
    } else {
        match ds[0] {
            DeclModel::Function(f) => seq![spec_lower_function(f)] + spec_lower_program(
                ds.drop_first(),
            ),
        }
    }
}

/// Lowering an expression advances the temporary counter by exactly the
/// expression's unary-operator count and appends exactly that many
/// instructions.
pub proof fn lemma_lower_expression_counter(e: ExprModel, f: Seq<char>, k: nat)
    ensures
        spec_lower_expression(e, f, k).2 == k + expr_unary_count(e),
        spec_lower_expression(e, f, k).0.len() == expr_unary_count(e),
    decreases e,
{
    match e {
        ExprModel::Constant(_) => {},
        ExprModel::Unary(op, sub) => {
            lemma_lower_expression_counter(*sub, f, k);
        },
    }
}

/// The temporary named `name` is written by a unary instruction at some
/// position before `j`.
pub open spec fn written_before(instrs: Seq<InstrModel>, j: int, name: Seq<char>) -> bool {
    exists|i: int|
        0 <= i < j && ((#[trigger] instrs[i]) matches InstrModel::Unary { dst, .. } && dst
            == ValueModel::Variable(name))
}

/// Single static assignment by construction: every temporary an
/// instruction reads, as a unary source or as a returned value, was
/// written by an earlier unary instruction.
pub open spec fn ssa_ok(instrs: Seq<InstrModel>) -> bool {
    forall|j: int|
        0 <= j < instrs.len() ==> match #[trigger] instrs[j] {
            InstrModel::Return(ValueModel::Variable(n)) => written_before(instrs, j, n),
            InstrModel::Unary { src: ValueModel::Variable(n), .. } => written_before(
                instrs,
                j,
                n,
            ),
            _ => true,
        }
}

/// The chain shape of lowered expressions: every instruction is unary,
/// each source is a constant or the destination of the instruction just
/// before it, and a temporary result is the last destination.
spec fn chain_shape(ins: Seq<InstrModel>, v: ValueModel) -> bool {
    &&& forall|j: int|
        0 <= j < ins.len() ==> match #[trigger] ins[j] {
            InstrModel::Unary { src, .. } => src is Constant || (j > 0 && (ins[j - 1] matches
            InstrModel::Unary { dst, .. } && src == dst)),
            _ => false,
        }
    &&& (v matches ValueModel::Variable(n) ==> ins.len() > 0 && (ins.last() matches
    InstrModel::Unary { dst, .. } && dst == ValueModel::Variable(n)))
}

proof fn lemma_lower_expression_chain_shape(e: ExprModel, f: Seq<char>, k: nat)
    ensures
        ({
            let (ins, v, k2) = spec_lower_expression(e, f, k);
            chain_shape(ins, v)
        }),
    decreases e,
{
    match e {
        ExprModel::Constant(_) => {},
        ExprModel::Unary(op, sub) => {
            lemma_lower_expression_chain_shape(*sub, f, k);
            let (ins0, v0, k0) = spec_lower_expression(*sub, f, k);
            let dst = ValueModel::Variable(temp_name(f, k0));
            let ins = ins0.push(InstrModel::Unary { op: convert_op(op), src: v0, dst });
            assert forall|j: int| 0 <= j < ins.len() implies match #[trigger] ins[j] {
                InstrModel::Unary { src, .. } => src is Constant || (j > 0 && (ins[j - 1] matches
                InstrModel::Unary { dst: d, .. } && src == d)),
                _ => false,
            } by {
                if j < ins0.len() {
                    assert(ins[j] == ins0[j]);
                    if j > 0 {
                        assert(ins[j - 1] == ins0[j - 1]);
                    }
                } else {
                    if v0 is Variable {
                        assert(ins[j - 1] == ins0.last());
                    }
                }
            }
        },
    }
}

proof fn lemma_lower_statements_ssa(ss: Seq<StmtModel>, f: Seq<char>, k: nat)
    ensures
        ssa_ok(spec_lower_statements(ss, f, k).0),
    decreases ss.len(),
{
    if ss.len() > 0 {
        match ss[0] {
            StmtModel::Return(e) => {
                lemma_lower_expression_chain_shape(e, f, k);
                let (ins, v, k2) = spec_lower_expression(e, f, k);
                lemma_lower_statements_ssa(ss.drop_first(), f, k2);
                let rest = spec_lower_statements(ss.drop_first(), f, k2).0;
                let head = ins.push(InstrModel::Return(v));
                let whole = head + rest;
                let off = head.len() as int;
                assert forall|j: int| 0 <= j < whole.len() implies match #[trigger] whole[j] {
                    InstrModel::Return(ValueModel::Variable(n)) => written_before(whole, j, n),
                    InstrModel::Unary { src: ValueModel::Variable(n), .. } => written_before(
                        whole,
                        j,
                        n,
                    ),
                    _ => true,
                } by {
                    if j < off {
                        assert(whole[j] == head[j]);
                        if j < ins.len() {
                            assert(head[j] == ins[j]);
                            match ins[j] {
                                InstrModel::Unary { src: ValueModel::Variable(n), .. } => {
                                    assert(whole[j - 1] == ins[j - 1]);
                                    assert(written_before(whole, j, n));
                                },
                                _ => {},
                            }
                        } else {
                            match v {
                                ValueModel::Variable(n) => {
                                    assert(whole[j - 1] == ins.last());
                                    assert(written_before(whole, j, n));
                                },
                                _ => {},
                            }
                        }
                    } else {
                        assert(whole[j] == rest[j - off]);
                        match rest[j - off] {
                            InstrModel::Return(ValueModel::Variable(n)) => {
                                let i0 = choose|i0: int|
                                    0 <= i0 < j - off && ((#[trigger] rest[i0]) matches
                                        InstrModel::Unary { dst, .. } && dst
                                        == ValueModel::Variable(n));
                                assert(whole[i0 + off] == rest[i0]);
                                assert(written_before(whole, j, n));
                            },
                            InstrModel::Unary { src: ValueModel::Variable(n), .. } => {
                                let i0 = choose|i0: int|
                                    0 <= i0 < j - off && ((#[trigger] rest[i0]) matches
                                        InstrModel::Unary { dst, .. } && dst
                                        == ValueModel::Variable(n));
                                assert(whole[i0 + off] == rest[i0]);
                                assert(written_before(whole, j, n));
                            },
                            _ => {},
                        }
                    }
                }
            },
        }
    }
}

/// Lowered functions read temporaries only after writing them: every
/// temporary an instruction of the body reads, as a unary source or as
/// a returned value, was written by an earlier unary instruction.
pub proof fn lemma_lower_function_ssa(f: FunModel)
    ensures
        ssa_ok(spec_lower_function(f).instructions),
{
    lemma_lower_statements_ssa(f.statements, f.name, 0);
}

/// A chain of unary operators, outermost first, around an integer
/// literal.
pub open spec fn unary_chain(ops: Seq<UnaryExpressionType>, lit: Seq<char>) -> ExprModel
    decreases ops.len(),
{
    if ops.len() == 0 {
        ExprModel::Constant(lit)
    } else {
        ExprModel::Unary(ops[0], Box::new(unary_chain(ops.drop_first(), lit)))
    }
}

proof fn lemma_lower_chain_expression(
    ops: Seq<UnaryExpressionType>,
    lit: Seq<char>,
    f: Seq<char>,
    k: nat,
)
    ensures
        spec_lower_expression(unary_chain(ops, lit), f, k).0.len() == ops.len(),
        forall|j: int|
            0 <= j < ops.len() ==> spec_lower_expression(unary_chain(ops, lit), f, k).0[j]
                is Unary,
        ops.len() == 0 ==> spec_lower_expression(unary_chain(ops, lit), f, k).1
            == ValueModel::Constant(lit),
        ops.len() > 0 ==> (spec_lower_expression(unary_chain(ops, lit), f, k).0[0] matches
            InstrModel::Unary { src, .. } && src == ValueModel::Constant(lit)),
    decreases ops.len(),
{
    if ops.len() > 0 {
        lemma_lower_chain_expression(ops.drop_first(), lit, f, k);
    }
}

/// Lowering a single-statement function whose body returns a unary chain
/// of depth `n` produces exactly `n` unary instructions followed by one
/// return instruction, and the innermost unary instruction's source is a
/// constant equal to the literal.
pub proof fn lemma_lower_unary_chain(
    name: Seq<char>,
    ops: Seq<UnaryExpressionType>,
    lit: Seq<char>,
)
    ensures
        ({
            let f = FunModel {
                name,
                statements: seq![StmtModel::Return(unary_chain(ops, lit))],
            };
            let instrs = spec_lower_function(f).instructions;
            &&& instrs.len() == ops.len() + 1
            &&& forall|j: int| 0 <= j < ops.len() ==> instrs[j] is Unary
            &&& instrs[ops.len() as int] is Return
            &&& ops.len() > 0 ==> (instrs[0] matches InstrModel::Unary { src, .. } && src
                == ValueModel::Constant(lit))
        }),
{
    let f = FunModel { name, statements: seq![StmtModel::Return(unary_chain(ops, lit))] };
    let ss = f.statements;
    lemma_lower_chain_expression(ops, lit, name, 0);
    let (ins, v, k2) = spec_lower_expression(unary_chain(ops, lit), name, 0);
    assert(ss.len() == 1);
    assert(ss[0] == StmtModel::Return(unary_chain(ops, lit)));
    assert(ss.drop_first() =~= Seq::<StmtModel>::empty());
    assert(spec_lower_statements(ss.drop_first(), name, k2).0 == Seq::<InstrModel>::empty());
    let instrs = spec_lower_function(f).instructions;
    assert(instrs == ins.push(InstrModel::Return(v)) + spec_lower_statements(
        ss.drop_first(),
        name,
        k2,
    ).0);
    assert(instrs =~= ins.push(InstrModel::Return(v)));
    assert(instrs[ops.len() as int] == InstrModel::Return(v));
    if ops.len() > 0 {
        assert(instrs[0] == ins[0]);
    }
}

struct FunctionTranspiler {
    instructions: Vec<Instruction>,
    f_name: String,
    tmp_count: usize,
}

impl FunctionTranspiler {
    fn new(name: String) -> (r: Self)
        ensures
            r.instructions@ == Seq::<Instruction>::empty(),
            r.f_name == name,
            r.tmp_count == 0,
    {
        FunctionTranspiler { instructions: Vec::new(), f_name: name, tmp_count: 0 }
    }

    fn make_temporary(&mut self) -> (r: String)
        requires
            old(self).tmp_count < usize::MAX,
        ensures
            r@ == temp_name(old(self).f_name@, old(self).tmp_count as nat),
            final(self).tmp_count == old(self).tmp_count + 1,
            final(self).f_name == old(self).f_name,
            final(self).instructions == old(self).instructions,
    {
        let mut name = "fn.".to_owned();
        name.append(self.f_name.as_str());
        name.append(".");
        name.append(u64_dec_string(self.tmp_count as u64).as_str());
        self.tmp_count = self.tmp_count + 1;
        proof {
            assert(name@ =~= temp_name(old(self).f_name@, old(self).tmp_count as nat));
        }
        name
    }

    fn parse_statement(&mut self, s: Statement)
        requires
            old(self).tmp_count + stmt_unary_count(s@) <= usize::MAX,
        ensures
            match s@ {
                StmtModel::Return(em) => {
                    let (ins, vv, k2) = spec_lower_expression(
                        em,
                        old(self).f_name@,
                        old(self).tmp_count as nat,
                    );
                    &&& instr_models(final(self).instructions@) == instr_models(
                        old(self).instructions@,
                    ) + ins.push(InstrModel::Return(vv))
                    &&& final(self).tmp_count == k2
                    &&& final(self).f_name == old(self).f_name
                },
            },
    {
        match s {
            Statement::Return(exp) => {
                let ghost prev = instr_models(self.instructions@);
                let value = self.parse_value(exp);
                let ghost mid = instr_models(self.instructions@);
                let ghost vm = value@;
                self.instructions.push(Instruction::Return(value));
                proof {
                    assert(instr_models(self.instructions@) =~= mid + seq![
                        InstrModel::Return(vm),
                    ]);
                    let (ins, vv, k2) = spec_lower_expression(
                        exp@,
                        old(self).f_name@,
                        old(self).tmp_count as nat,
                    );
                    assert((prev + ins).push(InstrModel::Return(vv)) =~= prev + ins.push(
                        InstrModel::Return(vv),
                    ));
                }
            },
        }
    }

    fn parse_value(&mut self, e: Expression) -> (v: Value)
        requires
            old(self).tmp_count + expr_unary_count(e@) <= usize::MAX,
        ensures
            ({
                let (ins, vv, k2) = spec_lower_expression(
                    e@,
                    old(self).f_name@,
                    old(self).tmp_count as nat,
                );
                &&& instr_models(final(self).instructions@) == instr_models(
                    old(self).instructions@,
                ) + ins
                &&& v@ == vv
                &&& final(self).tmp_count == k2
                &&& final(self).f_name == old(self).f_name
            }),
        decreases e,
    {
        match e {
            Expression::Constant(c) => {
                proof {
                    assert(instr_models(self.instructions@) + Seq::<InstrModel>::empty()
                        =~= instr_models(self.instructions@));
                }
                match c {
                    ConstantValue::Int(s) => Value::Constant(s),
                }
            },
            Expression::Unary(op, inner) => {
                let src = self.parse_value(*inner);
                proof {
                    lemma_lower_expression_counter(
                        inner@,
                        old(self).f_name@,
                        old(self).tmp_count as nat,
                    );
                }
                let name = self.make_temporary();
                let dst = Value::Variable(name.clone());
                let op2 = Self::convert_unop(op);
                let ghost mid = instr_models(self.instructions@);
                let im = Instruction::Unary(
                    UnaryInstructionDefinition {
                        operator: op2,
                        source: src,
                        destination: Value::Variable(name),
                    },
                );
                let ghost imm = im@;
                self.instructions.push(im);
                proof {
                    assert(instr_models(self.instructions@) =~= mid + seq![imm]);
                }
                dst
            },
        }
    }

    fn convert_unop(op: UnaryExpressionType) -> (r: UnaryInstructionOperator)
        ensures
            r == convert_op(op),
    {
        match op {
            UnaryExpressionType::Complement => UnaryInstructionOperator::Complement,
            UnaryExpressionType::Negation => UnaryInstructionOperator::Negate,
        }
    }
}

impl Construct {
    fn from_transpiler(t: FunctionTranspiler) -> (r: Self)
        ensures
            r@.identifier == t.f_name@,
            r@.instructions == instr_models(t.instructions@),
    {
        Construct::Function(
            FunctionDefinition { identifier: t.f_name, instructions: t.instructions },
        )
    }
}

/// Lowers a whole program to the intermediate representation, as
/// [`spec_lower_program`] describes. Lowering is total on valid trees;
/// the bound on unary operators per function is the machine limit on the
/// temporary counter.
pub fn parse(program: ast_symbols::Program) -> (r: Program)
    requires
        forall|k: int|
            0 <= k < program@.len() ==> ast_symbols::decl_unary_count(
                #[trigger] program_model(program@)[k],
            ) < usize::MAX,
    ensures
        ir_program_model(r@) == spec_lower_program(program_model(program@)),
{
    let ghost orig = program_model(program@);
    let mut program = program;
    let mut result: Vec<Construct> = Vec::new();
    while program.len() > 0
        invariant
            forall|k: int|
                0 <= k < program@.len() ==> ast_symbols::decl_unary_count(
                    #[trigger] program_model(program@)[k],
                ) < usize::MAX,
            ir_program_model(result@) + spec_lower_program(program_model(program@))
                =~= spec_lower_program(orig),
        decreases program@.len(),
    {
        let ghost pre = program_model(program@);
        let ghost result_pre = ir_program_model(result@);
        proof {
            assert(ast_symbols::decl_unary_count(pre[0]) < usize::MAX);
        }
        let dec = program.remove(0);
        proof {
            assert(program_model(program@) =~= pre.drop_first());
            assert(dec@ == pre[0]);
            assert forall|k: int| 0 <= k < program@.len() implies ast_symbols::decl_unary_count(
                #[trigger] program_model(program@)[k],
            ) < usize::MAX by {
                assert(program_model(program@)[k] == pre[k + 1]);
            }
        }
        match dec {
            Declaration::Function(def) => {
                let ghost fm = def@;
                let ghost fname = def.name@;
                let mut t = FunctionTranspiler::new(def.name);
                let mut stmts = def.statements;
                proof {
                    assert(fm.statements =~= crate::ast::parser::stmt_models(stmts@));
                    assert(instr_models(t.instructions@) =~= Seq::<InstrModel>::empty());
                    assert(Seq::<InstrModel>::empty() + spec_lower_statements(
                        fm.statements,
                        fname,
                        0,
                    ).0 =~= spec_lower_statements(fm.statements, fname, 0).0);
                }
                while stmts.len() > 0
                    invariant
                        t.f_name@ == fname,
                        t.tmp_count + stmts_unary_count(
                            crate::ast::parser::stmt_models(stmts@),
                        ) <= usize::MAX,
                        ({
                            let (rest, kf) = spec_lower_statements(
                                crate::ast::parser::stmt_models(stmts@),
                                fname,
                                t.tmp_count as nat,
                            );
                            spec_lower_statements(fm.statements, fname, 0) == (
                                (instr_models(t.instructions@) + rest, kf)
                            )
                        }),
                    decreases stmts@.len(),
                {
                    let ghost spre = crate::ast::parser::stmt_models(stmts@);
                    let ghost t_pre_ins = instr_models(t.instructions@);
                    let ghost k_pre = t.tmp_count as nat;
                    let s = stmts.remove(0);
                    proof {
                        assert(crate::ast::parser::stmt_models(stmts@) =~= spre.drop_first());
                        assert(s@ == spre[0]);
                    }
                    t.parse_statement(s);
                    proof {
                        match spre[0] {
                            StmtModel::Return(em) => {
                                lemma_lower_expression_counter(em, fname, k_pre);
                                assert(stmts_unary_count(spre) == stmt_unary_count(spre[0])
                                    + stmts_unary_count(spre.drop_first()));
                                let (ins, vv, k2) = spec_lower_expression(em, fname, k_pre);
                                let (rest2, kf) = spec_lower_statements(
                                    spre.drop_first(),
                                    fname,
                                    k2,
                                );
                                assert(t_pre_ins + (ins.push(InstrModel::Return(vv)) + rest2)
                                    =~= (t_pre_ins + ins.push(InstrModel::Return(vv))) + rest2);
                            },
                        }
                    }
                }
                proof {
                    assert(instr_models(t.instructions@) + Seq::<InstrModel>::empty()
                        =~= instr_models(t.instructions@));
                }
                let c = Construct::from_transpiler(t);
                let ghost cm = c@;
                result.push(c);
                proof {
                    assert(cm == spec_lower_function(fm));
                    assert(ir_program_model(result@) =~= result_pre + seq![cm]);
                    assert((result_pre + seq![spec_lower_function(fm)]) + spec_lower_program(
                        pre.drop_first(),
                    ) =~= result_pre + (seq![spec_lower_function(fm)] + spec_lower_program(
                        pre.drop_first(),
                    )));
                }
            },
        }
    }
    proof {
        assert(ir_program_model(result@) + Seq::<IrFunModel>::empty() =~= ir_program_model(
            result@,
        ));
    }
    result
}

} // verus!
