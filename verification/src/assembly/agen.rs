//! Emission of the final assembly text from the selected instructions.
//!
//! The executable emitter is specified against [`fun_text`], which pins
//! the emitted text exactly: directive and label, fixed prologue, one
//! tab-indented line per instruction (the return instruction carrying the
//! fixed epilogue), with AT&T operand order (source, then destination).

use vstd::prelude::*;
use vstd::string::*;
use crate::assembly::symbols::{
    asm_program_model, reg_text, AsmFunModel, AsmInstrModel, Instruction, Opd, OpdModel, Program,
    UnaryOp,
};
use crate::assembly::transpile::AsmError;
use crate::decimal::{i32_dec_string, int_str};

verus! {

/// The assembler spelling of one operand.
pub open spec fn opd_text(o: OpdModel) -> Seq<char> {
    match o {
        OpdModel::Imm(s) => "$"@ + s,
        OpdModel::Reg(r) => reg_text(r),
        OpdModel::Stack(off) => int_str(off) + "(%rbp)"@,
    }
}

/// The assembler spelling of one instruction, without indentation.
pub open spec fn instr_text(i: AsmInstrModel) -> Seq<char> {
    match i {
        AsmInstrModel::Mov(src, dst) => "movl\t"@ + opd_text(src) + ", "@ + opd_text(dst),
        AsmInstrModel::Ret => "movq\t%rbp, %rsp\n\tpopq\t%rbp\n\tret"@,
        AsmInstrModel::Unary(op, dst) => (match op {
            UnaryOp::Neg => "negl\t"@,
            UnaryOp::Not => "notl\t"@,
        }) + opd_text(dst),
        AsmInstrModel::AllocateStack(n) => "subq\t$"@ + int_str(n) + ", %rsp"@,
    }
}

/// The emitted body: each instruction on its own tab-indented line.
pub open spec fn instrs_text(s: Seq<AsmInstrModel>) -> Seq<char>
    decreases s.len(),
{
    if s.len() == 0 {
        Seq::<char>::empty()
    } else {
        "\t"@ + instr_text(s[0]) + "\n"@ + instrs_text(s.drop_first())
    }
}

/// The emitted text of one function: global-symbol directive, label,
/// fixed prologue, then the body.
pub open spec fn fun_text(f: AsmFunModel) -> Seq<char> {
    "\t.globl _"@ + f.identifier + "\n_"@ + f.identifier + ":\n\tpushq\t%rbp\n\tmovq\t%rsp, %rbp\n"@
        + instrs_text(f.instructions)
}

fn gen_op(v: &Opd) -> (r: String)
    ensures
        r@ == opd_text(v@),
{
    match v {
        Opd::Reg(rr) => rr.operand(),
        Opd::Imm(imm) => {
            let mut s = "$".to_owned();
            s.append(imm.as_str());
            s
        },
        Opd::Stack(offset) => {
            let mut s = i32_dec_string(*offset);
            s.append("(%rbp)");
            s
        },
    }
}

fn gen_instruction(i: &Instruction) -> (r: String)
    ensures
        r@ == instr_text(i@),
{
    match i {
        Instruction::Mov(src, dst) => {
            let mut s = "movl\t".to_owned();
            s.append(gen_op(src).as_str());
            s.append(", ");
            s.append(gen_op(dst).as_str());
            proof {
                assert(s@ =~= instr_text(i@));
            }
            s
        },
        Instruction::Ret => "movq\t%rbp, %rsp\n\tpopq\t%rbp\n\tret".to_owned(),
        Instruction::Unary(op, dst) => {
            let mut s = match op {
                UnaryOp::Neg => "negl\t".to_owned(),
                UnaryOp::Not => "notl\t".to_owned(),
            };
            s.append(gen_op(dst).as_str());
            s
        },
        Instruction::AllocateStack(size) => {
            let mut s = "subq\t$".to_owned();
            s.append(i32_dec_string(*size).as_str());
            s.append(", %rsp");
            proof {
                assert(s@ =~= instr_text(i@));
            }
            s
        },
    }
}

/// Emits the assembly text for a program holding exactly one function,
/// as [`fun_text`] describes; any other function count is an error,
/// mirroring the selector's limitation.
#[verifier::loop_isolation(false)]
pub fn codegen(program: &Program) -> (r: Result<String, AsmError>)
    ensures
        ({
            let pm = asm_program_model(program@);
            if pm.len() != 1 {
                r == Err::<String, AsmError>(AsmError::FunctionCountNotOne)
            } else {
                r matches Ok(s) && s@ == fun_text(pm[0])
            }
        }),
{
    if program.len() != 1 {
        return Err(AsmError::FunctionCountNotOne);
    }
    let f = &program[0];
    let ghost fm = f@;
    let mut gen = "\t.globl _".to_owned();
    gen.append(f.identifier.as_str());
    gen.append("\n_");
    gen.append(f.identifier.as_str());
    gen.append(":\n\tpushq\t%rbp\n\tmovq\t%rsp, %rbp\n");
    let n = f.instructions.len();
    let mut k: usize = 0;
    proof {
        assert(fm.instructions.skip(0) =~= fm.instructions);
        assert(gen@ + instrs_text(fm.instructions) =~= fun_text(fm));
    }
    while k < n
        invariant
            k <= n,
            n == fm.instructions.len(),
            gen@ + instrs_text(fm.instructions.skip(k as int)) == fun_text(fm),
        decreases n - k,
    {
        let ghost pre = gen@;
        gen.append("\t");
        gen.append(gen_instruction(&f.instructions[k]).as_str());
        gen.append("\n");
        k += 1;
        proof {
            let ms = fm.instructions;
            assert(ms.skip(k - 1 as int)[0] == ms[k - 1]);
            assert(ms.skip(k - 1 as int).drop_first() =~= ms.skip(k as int));
            assert(gen@ =~= pre + ("\t"@ + instr_text(ms[k - 1]) + "\n"@));
            assert(pre + (("\t"@ + instr_text(ms[k - 1]) + "\n"@) + instrs_text(
                ms.skip(k as int),
            )) =~= (pre + ("\t"@ + instr_text(ms[k - 1]) + "\n"@)) + instrs_text(
                ms.skip(k as int),
            ));
        }
    }
    proof {
        assert(instrs_text(fm.instructions.skip(n as int)) =~= Seq::<char>::empty());
        assert(gen@ + Seq::<char>::empty() =~= gen@);
    }
    Ok(gen)
}

} // verus!
