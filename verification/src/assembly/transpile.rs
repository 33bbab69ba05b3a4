//! Instruction selection with stack allocation and operand fixup, from
//! the intermediate representation to assembly instruction forms.
//!
//! The executable [`STranspiler`] is specified against the mathematical
//! selector [`spec_select_function`]. Each distinct temporary receives a
//! unique stack slot, assigned the first time its name is seen at offsets
//! `-4, -8, ...` from the frame base; the frame size recorded in the
//! allocation instruction is four bytes per distinct temporary. A move
//! whose source and destination would both be stack slots is rewritten
//! through the reserved scratch register, so no emitted move has two
//! stack operands.

use vstd::prelude::*;
use vstd::set_lib::lemma_len_subset;
use crate::assembly::symbols::{
    asm_instr_models, asm_program_model, is_stack_to_stack_mov, AsmFunModel, AsmInstrModel,
    Function, Instruction, Opd, OpdModel, Program, Reg, UnaryOp,
};
use crate::zil::symbols as zil_symbols;
use crate::zil::symbols::{
    instr_models, ir_program_model, Construct, InstrModel, IrFunModel, UnaryInstructionOperator,
    Value, ValueModel,
};

verus! {

/// The most stack slots one frame may hold; one more distinct temporary
/// is reported as an error instead of overflowing the signed offsets.
pub const MAX_STACK_SLOTS: usize = 0x0FFF_FFFF;

/// Why instruction selection failed: the program did not hold exactly one
/// function (the only supported shape), or a function used more distinct
/// temporaries than a frame may hold. Both are violated invariants of the
/// surrounding pipeline, not source-level syntax errors.
#[derive(Debug, Clone, Copy, PartialEq, Eq, Structural)]
pub enum AsmError {
    FunctionCountNotOne,
    FrameTooLarge,
}

/// Ghost state of the selector: the slot map from temporary names to
/// their frame offsets, and the lowest offset handed out so far.
pub struct SelState {
    pub slots: Map<Seq<char>, int>,
    pub offset: int,
}

/// The selector state before any instruction: no slots, offset zero.
pub open spec fn init_state() -> SelState {
    SelState { slots: Map::empty(), offset: 0 }
}

/// The slot map is finite and the running offset is four bytes per slot,
/// downward.
pub open spec fn state_ok(st: SelState) -> bool {
    st.slots.dom().finite() && st.offset == -4 * st.slots.dom().len()
}

/// The mathematical operand resolution: a constant becomes an immediate;
/// a temporary becomes the stack slot its name was first given, a fresh
/// slot four bytes below the last when the name is new.
pub open spec fn spec_resolve(st: SelState, v: ValueModel) -> (SelState, OpdModel) {
    match v {
        ValueModel::Constant(s) => (st, OpdModel::Imm(s)),
        ValueModel::Variable(name) => {
            if st.slots.dom().contains(name) {
                (st, OpdModel::Stack(st.slots[name]))
            } else {
                let off = st.offset - 4;
                (
                    SelState { slots: st.slots.insert(name, off), offset: off },
                    OpdModel::Stack(off),
                )
            }
        },
    }
}

/// Resolving this value would need a slot its name does not have yet.
pub open spec fn needs_new_slot(st: SelState, v: ValueModel) -> bool {
    v matches ValueModel::Variable(name) && !st.slots.dom().contains(name)
}

/// The machine operation for an intermediate-representation operator.
pub open spec fn op_of(op: UnaryInstructionOperator) -> UnaryOp {
    match op {
        UnaryInstructionOperator::Negate => UnaryOp::Neg,
        UnaryInstructionOperator::Complement => UnaryOp::Not,
    }
}

/// The mathematical selection of one instruction. A return moves its
/// value into the return register and returns. A unary operation copies
/// its source to its destination, routed through the scratch register
/// when both are stack slots, then applies the operator in place.
pub open spec fn spec_select_instruction(st: SelState, i: InstrModel) -> (
    SelState,
    Seq<AsmInstrModel>,
) {
    match i {
        InstrModel::Return(v) => {
            let (st1, opd) = spec_resolve(st, v);
            (st1, seq![AsmInstrModel::Mov(opd, OpdModel::Reg(Reg::AX)), AsmInstrModel::Ret])
        },
        InstrModel::Unary { op, src, dst } => {
            let (st1, s_opd) = spec_resolve(st, src);
            let (st2, d_opd) = spec_resolve(st1, dst);
            let moves = if s_opd is Stack && d_opd is Stack {
                seq![
                    AsmInstrModel::Mov(s_opd, OpdModel::Reg(Reg::R10D)),
                    AsmInstrModel::Mov(OpdModel::Reg(Reg::R10D), d_opd),
                ]
            } else {
                seq![AsmInstrModel::Mov(s_opd, d_opd)]
            };
            (st2, moves.push(AsmInstrModel::Unary(op_of(op), d_opd)))
        },
    }
}

/// The mathematical selection of an instruction list, threading the slot
/// state left to right.
pub open spec fn spec_select_instructions(st: SelState, instrs: Seq<InstrModel>) -> (
    SelState,
    Seq<AsmInstrModel>,
)
    decreases instrs.len(),
{
    if instrs.len() == 0 {
        (st, Seq::<AsmInstrModel>::empty())
    } else {
        let (st1, first) = spec_select_instruction(st, instrs[0]);
        let (st2, rest) = spec_select_instructions(st1, instrs.drop_first());
        (st2, first + rest)
    }
}

/// The mathematical selection of one function: its body selected from an
/// empty slot map, behind a stack allocation of the whole frame.
pub open spec fn spec_select_function(f: IrFunModel) -> AsmFunModel {
    let (st, body) = spec_select_instructions(init_state(), f.instructions);
    AsmFunModel {
        identifier: f.identifier,
        instructions: seq![AsmInstrModel::AllocateStack(-st.offset)] + body,
    }
}

/// The temporary names a value mentions.
pub open spec fn value_vars(v: ValueModel) -> Set<Seq<char>> {
    match v {
        ValueModel::Constant(_) => Set::empty(),
        ValueModel::Variable(name) => Set::empty().insert(name),
    }
}

/// The temporary names an instruction mentions.
pub open spec fn instr_vars(i: InstrModel) -> Set<Seq<char>> {
    match i {
        InstrModel::Return(v) => value_vars(v),
        InstrModel::Unary { op, src, dst } => value_vars(src) + value_vars(dst),
    }
}

/// The distinct temporary names an instruction list mentions.
pub open spec fn instrs_vars(instrs: Seq<InstrModel>) -> Set<Seq<char>>
    decreases instrs.len(),
{
    if instrs.len() == 0 {
        Set::empty()
    } else {
        instr_vars(instrs[0]) + instrs_vars(instrs.drop_first())
    }
}

/// No instruction of the list is a stack-to-stack move.
pub open spec fn no_stack_stack_seq(s: Seq<AsmInstrModel>) -> bool {
    forall|k: int| 0 <= k < s.len() ==> !is_stack_to_stack_mov(s[k])
}

/// No instruction of the function is a stack-to-stack move.
pub open spec fn no_stack_stack_fun(f: AsmFunModel) -> bool {
    no_stack_stack_seq(f.instructions)
}

/// Resolving a value keeps the state sound and grows the slot map by
/// exactly the value's names.
pub proof fn lemma_resolve_state(st: SelState, v: ValueModel)
    requires
        state_ok(st),
    ensures
        state_ok(spec_resolve(st, v).0),
        spec_resolve(st, v).0.slots.dom() == st.slots.dom() + value_vars(v),
{
    match v {
        ValueModel::Constant(_) => {
            assert(st.slots.dom() + value_vars(v) =~= st.slots.dom());
        },
        ValueModel::Variable(name) => {
            if st.slots.dom().contains(name) {
                assert(st.slots.dom() + value_vars(v) =~= st.slots.dom());
            } else {
                assert(st.slots.insert(name, st.offset - 4).dom() =~= st.slots.dom() + value_vars(
                    v,
                ));
            }
        },
    }
}

/// Selecting one instruction keeps the state sound and grows the slot
/// map by exactly the instruction's names.
pub proof fn lemma_select_instruction_state(st: SelState, i: InstrModel)
    requires
        state_ok(st),
    ensures
        state_ok(spec_select_instruction(st, i).0),
        spec_select_instruction(st, i).0.slots.dom() == st.slots.dom() + instr_vars(i),
{
    match i {
        InstrModel::Return(v) => {
            lemma_resolve_state(st, v);
        },
        InstrModel::Unary { op, src, dst } => {
            lemma_resolve_state(st, src);
            let st1 = spec_resolve(st, src).0;
            lemma_resolve_state(st1, dst);
            assert((st.slots.dom() + value_vars(src)) + value_vars(dst) =~= st.slots.dom() + (
            value_vars(src) + value_vars(dst)));
        },
    }
}

/// Selecting an instruction list keeps the state sound and grows the
/// slot map by exactly the list's names.
pub proof fn lemma_select_instructions_state(st: SelState, instrs: Seq<InstrModel>)
    requires
        state_ok(st),
    ensures
        state_ok(spec_select_instructions(st, instrs).0),
        spec_select_instructions(st, instrs).0.slots.dom() == st.slots.dom() + instrs_vars(
            instrs,
        ),
    decreases instrs.len(),
{
    if instrs.len() == 0 {
        assert(st.slots.dom() + instrs_vars(instrs) =~= st.slots.dom());
    } else {
        lemma_select_instruction_state(st, instrs[0]);
        let st1 = spec_select_instruction(st, instrs[0]).0;
        lemma_select_instructions_state(st1, instrs.drop_first());
        assert((st.slots.dom() + instr_vars(instrs[0])) + instrs_vars(instrs.drop_first())
            =~= st.slots.dom() + instrs_vars(instrs));
    }
}

proof fn lemma_select_instruction_no_ss(st: SelState, i: InstrModel)
    ensures
        no_stack_stack_seq(spec_select_instruction(st, i).1),
{
    let out = spec_select_instruction(st, i).1;
    match i {
        InstrModel::Return(v) => {
            assert forall|k: int| 0 <= k < out.len() implies !is_stack_to_stack_mov(
                out[k],
            ) by {
                if k == 0 {
                    assert(out[0] matches AsmInstrModel::Mov(_, OpdModel::Reg(_)));
                }
            }
        },
        InstrModel::Unary { op, src, dst } => {
            assert forall|k: int| 0 <= k < out.len() implies !is_stack_to_stack_mov(
                out[k],
            ) by {}
        },
    }
}

proof fn lemma_select_instructions_no_ss(st: SelState, instrs: Seq<InstrModel>)
    ensures
        no_stack_stack_seq(spec_select_instructions(st, instrs).1),
    decreases instrs.len(),
{
    if instrs.len() > 0 {
        lemma_select_instruction_no_ss(st, instrs[0]);
        let (st1, first) = spec_select_instruction(st, instrs[0]);
        lemma_select_instructions_no_ss(st1, instrs.drop_first());
        let rest = spec_select_instructions(st1, instrs.drop_first()).1;
        assert forall|k: int| 0 <= k < (first + rest).len() implies !is_stack_to_stack_mov(
            (first + rest)[k],
        ) by {
            if k < first.len() {
                assert((first + rest)[k] == first[k]);
            } else {
                assert((first + rest)[k] == rest[k - first.len()]);
            }
        }
    }
}

/// The operand fixup invariant: no move instruction of a selected
/// function has two stack operands.
pub proof fn lemma_fixup_invariant(f: IrFunModel)
    ensures
        no_stack_stack_fun(spec_select_function(f)),
{
    lemma_select_instructions_no_ss(init_state(), f.instructions);
    let (st, body) = spec_select_instructions(init_state(), f.instructions);
    let all = spec_select_function(f).instructions;
    assert forall|k: int| 0 <= k < all.len() implies !is_stack_to_stack_mov(all[k]) by {
        if k > 0 {
            assert(all[k] == body[k - 1]);
        }
    }
}

/// The stack frame size recorded in the allocation instruction equals
/// four bytes for each distinct temporary the function's body mentions.
pub proof fn lemma_frame_size(f: IrFunModel)
    ensures
        spec_select_function(f).instructions.len() == spec_select_instructions(
            init_state(),
            f.instructions,
        ).1.len() + 1,
        spec_select_function(f).instructions[0] == AsmInstrModel::AllocateStack(
            4 * instrs_vars(f.instructions).len() as int,
        ),
{
    assert(state_ok(init_state()));
    lemma_select_instructions_state(init_state(), f.instructions);
    let st = spec_select_instructions(init_state(), f.instructions).0;
    assert(Set::<Seq<char>>::empty() + instrs_vars(f.instructions) =~= instrs_vars(
        f.instructions,
    ));
    assert(init_state().slots.dom() =~= Set::<Seq<char>>::empty());
}

/// Every name a prefix of the fold inserts stays a subset of what the
/// whole fold inserts; used to diagnose frame overflow exactly.
proof fn lemma_overflow_from_subset(st: SelState, rb: Seq<InstrModel>, big: Set<Seq<char>>)
    requires
        state_ok(st),
        big.finite(),
        big.len() > MAX_STACK_SLOTS,
        big.subset_of(spec_select_instructions(st, rb).0.slots.dom()),
    ensures
        spec_select_instructions(st, rb).0.slots.dom().len() > MAX_STACK_SLOTS,
{
    lemma_select_instructions_state(st, rb);
    lemma_len_subset(big, spec_select_instructions(st, rb).0.slots.dom());
}

/// Distinct keys in the slot association list.
spec fn keys_distinct(s: Seq<(String, i32)>) -> bool {
    forall|a: int, b: int| 0 <= a < b < s.len() ==> (#[trigger] s[a]).0@ != (#[trigger] s[b]).0@
}

/// The map an association list denotes, later entries inserted last.
spec fn assoc_map(s: Seq<(String, i32)>) -> Map<Seq<char>, int>
    decreases s.len(),
{
    if s.len() == 0 {
        Map::empty()
    } else {
        assoc_map(s.drop_last()).insert(s.last().0@, s.last().1 as int)
    }
}

proof fn lemma_assoc_map_contains(s: Seq<(String, i32)>, name: Seq<char>)
    ensures
        assoc_map(s).dom().contains(name) <==> exists|j: int|
            0 <= j < s.len() && (#[trigger] s[j]).0@ == name,
    decreases s.len(),
{
    if s.len() > 0 {
        lemma_assoc_map_contains(s.drop_last(), name);
        if assoc_map(s).dom().contains(name) {
            if s.last().0@ != name {
                let j = choose|j: int| 0 <= j < s.drop_last().len() && (#[trigger] s.drop_last()[
                    j
                ]).0@ == name;
                assert(s[j].0@ == name);
            }
        }
        if exists|j: int| 0 <= j < s.len() && (#[trigger] s[j]).0@ == name {
            let j = choose|j: int| 0 <= j < s.len() && (#[trigger] s[j]).0@ == name;
            if j < s.len() - 1 {
                assert(s.drop_last()[j].0@ == name);
            }
        }
    }
}

proof fn lemma_assoc_map_value(s: Seq<(String, i32)>, j: int)
    requires
        keys_distinct(s),
        0 <= j < s.len(),
    ensures
        assoc_map(s).dom().contains(s[j].0@),
        assoc_map(s)[s[j].0@] == s[j].1 as int,
    decreases s.len(),
{
    if j == s.len() - 1 {
    } else {
        assert(keys_distinct(s.drop_last())) by {
            assert forall|a: int, b: int|
                0 <= a < b < s.drop_last().len() implies (#[trigger] s.drop_last()[a]).0@ != (
            #[trigger] s.drop_last()[b]).0@ by {
                assert(s.drop_last()[a] == s[a]);
                assert(s.drop_last()[b] == s[b]);
            }
        }
        lemma_assoc_map_value(s.drop_last(), j);
        assert(s.drop_last()[j] == s[j]);
        assert(s[j].0@ != s.last().0@);
    }
}

proof fn lemma_assoc_map_card(s: Seq<(String, i32)>)
    requires
        keys_distinct(s),
    ensures
        assoc_map(s).dom().finite(),
        assoc_map(s).dom().len() == s.len(),
    decreases s.len(),
{
    if s.len() > 0 {
        assert(keys_distinct(s.drop_last())) by {
            assert forall|a: int, b: int|
                0 <= a < b < s.drop_last().len() implies (#[trigger] s.drop_last()[a]).0@ != (
            #[trigger] s.drop_last()[b]).0@ by {
                assert(s.drop_last()[a] == s[a]);
                assert(s.drop_last()[b] == s[b]);
            }
        }
        lemma_assoc_map_card(s.drop_last());
        lemma_assoc_map_contains(s.drop_last(), s.last().0@);
        assert(!assoc_map(s.drop_last()).dom().contains(s.last().0@)) by {
            if exists|j: int|
                0 <= j < s.drop_last().len() && (#[trigger] s.drop_last()[j]).0@ == s.last().0@ {
                let j = choose|j: int|
                    0 <= j < s.drop_last().len() && (#[trigger] s.drop_last()[j]).0@
                        == s.last().0@;
                assert(s[j].0@ == s[s.len() - 1].0@);
            }
        }
    }
}

/// The instruction selector: the slot map under construction and the
/// lowest frame offset handed out, owned by one selection pass.
pub struct STranspiler {
    stack_map: Vec<(String, i32)>,
    curr_offset: i32,
}

impl View for STranspiler {
    type V = SelState;

    closed spec fn view(&self) -> SelState {
        SelState { slots: assoc_map(self.stack_map@), offset: self.curr_offset as int }
    }
}

impl STranspiler {
    spec fn wf(&self) -> bool {
        &&& keys_distinct(self.stack_map@)
        &&& self.stack_map@.len() <= MAX_STACK_SLOTS
        &&& self.curr_offset as int == -4 * self.stack_map@.len()
    }

    proof fn lemma_wf_state(&self)
        requires
            self.wf(),
        ensures
            state_ok(self@),
            self@.slots.dom().len() == self.stack_map@.len(),
    {
        lemma_assoc_map_card(self.stack_map@);
    }

    /// Makes a selector with no slots assigned.
    pub fn new() -> (r: STranspiler)
        ensures
            r@ == init_state(),
    {
        let r = STranspiler { stack_map: Vec::new(), curr_offset: 0 };
        proof {
            assert(r@.slots =~= init_state().slots);
        }
        r
    }

    fn lookup(&self, id: &String) -> (r: Option<i32>)
        requires
            self.wf(),
        ensures
            match r {
                Some(off) => self@.slots.dom().contains(id@) && self@.slots[id@] == off as int,
                None => !self@.slots.dom().contains(id@),
            },
    {
        let n = self.stack_map.len();
        let mut k: usize = 0;
        while k < n
            invariant
                k <= n,
                n == self.stack_map@.len(),
                self.wf(),
                forall|j: int| 0 <= j < k ==> (#[trigger] self.stack_map@[j]).0@ != id@,
            decreases n - k,
        {
            if self.stack_map[k].0 == *id {
                proof {
                    lemma_assoc_map_value(self.stack_map@, k as int);
                }
                return Some(self.stack_map[k].1);
            }
            k += 1;
        }
        proof {
            lemma_assoc_map_contains(self.stack_map@, id@);
        }
        None
    }

    fn parse_value(&mut self, value: Value) -> (r: Result<Opd, AsmError>)
        requires
            old(self).wf(),
        ensures
            final(self).wf(),
            ({
                let (st2, opd) = spec_resolve(old(self)@, value@);
                if needs_new_slot(old(self)@, value@) && old(self)@.slots.dom().len()
                    >= MAX_STACK_SLOTS {
                    &&& r == Err::<Opd, AsmError>(AsmError::FrameTooLarge)
                    &&& final(self)@ == old(self)@
                } else {
                    &&& r matches Ok(o) && o@ == opd
                    &&& final(self)@ == st2
                }
            }),
    {
        proof {
            self.lemma_wf_state();
        }
        match value {
            Value::Constant(s) => Ok(Opd::Imm(s)),
            Value::Variable(id) => {
                match self.lookup(&id) {
                    Some(off) => Ok(Opd::Stack(off)),
                    None => {
                        if self.stack_map.len() >= MAX_STACK_SLOTS {
                            return Err(AsmError::FrameTooLarge);
                        }
                        let off = self.curr_offset - 4;
                        self.curr_offset = off;
                        let ghost pre = self.stack_map@;
                        self.stack_map.push((id, off));
                        proof {
                            assert(self.stack_map@.drop_last() =~= pre);
                            assert forall|a: int, b: int|
                                0 <= a < b < self.stack_map@.len() implies (
                            #[trigger] self.stack_map@[a]).0@ != (
                            #[trigger] self.stack_map@[b]).0@ by {
                                if b < self.stack_map@.len() - 1 {
                                    assert(self.stack_map@[a] == pre[a]);
                                    assert(self.stack_map@[b] == pre[b]);
                                } else {
                                    assert(self.stack_map@[a] == pre[a]);
                                    lemma_assoc_map_contains(pre, pre[a].0@);
                                }
                            }
                        }
                        Ok(Opd::Stack(off))
                    },
                }
            },
        }
    }

    #[verifier::loop_isolation(false)]
    fn parse_instructions(&mut self, instructions: Vec<zil_symbols::Instruction>) -> (r: Result<
        Vec<Instruction>,
        AsmError,
    >)
        requires
            old(self).wf(),
        ensures
            final(self).wf(),
            ({
                let (st_all, out_all) = spec_select_instructions(
                    old(self)@,
                    instr_models(instructions@),
                );
                if st_all.slots.dom().len() <= MAX_STACK_SLOTS {
                    &&& r matches Ok(v) && asm_instr_models(v@) == out_all
                    &&& final(self)@ == st_all
                } else {
                    r == Err::<Vec<Instruction>, AsmError>(AsmError::FrameTooLarge)
                }
            }),
    {
        let ghost st0 = self@;
        let ghost all = instr_models(instructions@);
        let mut instructions = instructions;
        let mut tp: Vec<Instruction> = Vec::new();
        while instructions.len() > 0
            invariant
                self.wf(),
                ({
                    let (st_all, out_all) = spec_select_instructions(st0, all);
                    let (st_rem, out_rem) = spec_select_instructions(
                        self@,
                        instr_models(instructions@),
                    );
                    &&& st_all == st_rem
                    &&& out_all == asm_instr_models(tp@) + out_rem
                }),
            decreases instructions@.len(),
        {
            let ghost rb = instr_models(instructions@);
            let ghost st_top = self@;
            let ghost tp_pre = asm_instr_models(tp@);
            proof {
                self.lemma_wf_state();
            }
            let i = instructions.remove(0);
            proof {
                assert(instr_models(instructions@) =~= rb.drop_first());
                assert(i@ == rb[0]);
            }
            match i {
                zil_symbols::Instruction::Return(val) => {
                    let ghost vm = val@;
                    match self.parse_value(val) {
                        Err(e) => {
                            proof {
                                match vm {
                                    ValueModel::Variable(name) => {
                                        lemma_resolve_state(st_top, vm);
                                        assert(st_top.slots.dom().insert(name).subset_of(
                                            spec_select_instruction(st_top, rb[0]).0.slots.dom(),
                                        ));
                                        lemma_err_case(st0, all, st_top, rb, st_top, name);
                                    },
                                    ValueModel::Constant(_) => {
                                        assert(false);
                                    },
                                }
                            }
                            return Err(e);
                        },
                        Ok(opd) => {
                            let ghost om = opd@;
                            tp.push(Instruction::Mov(opd, Opd::Reg(Reg::AX)));
                            tp.push(Instruction::Ret);
                            proof {
                                let (st1, first) = spec_select_instruction(st_top, rb[0]);
                                assert(asm_instr_models(tp@) =~= tp_pre + first);
                                let out_rem2 = spec_select_instructions(
                                    self@,
                                    instr_models(instructions@),
                                ).1;
                                assert(tp_pre + (first + out_rem2) =~= (tp_pre + first)
                                    + out_rem2);
                            }
                        },
                    }
                },
                zil_symbols::Instruction::Unary(def) => {
                    let ghost sm = def.source@;
                    let ghost dm = def.destination@;
                    let opr = def.operator;
                    let dst_value = def.destination;
                    match self.parse_value(def.source) {
                        Err(e) => {
                            proof {
                                match sm {
                                    ValueModel::Variable(name) => {
                                        lemma_resolve_state(st_top, sm);
                                        let st_s = spec_resolve(st_top, sm).0;
                                        lemma_resolve_state(st_s, dm);
                                        assert(st_top.slots.dom().insert(name).subset_of(
                                            spec_select_instruction(st_top, rb[0]).0.slots.dom(),
                                        ));
                                        lemma_err_case(st0, all, st_top, rb, st_top, name);
                                    },
                                    ValueModel::Constant(_) => {
                                        assert(false);
                                    },
                                }
                            }
                            return Err(e);
                        },
                        Ok(src) => {
                            let ghost st_mid = self@;
                            match self.parse_value(dst_value) {
                                Err(e) => {
                                    proof {
                                        match dm {
                                            ValueModel::Variable(name) => {
                                                lemma_resolve_state(st_top, sm);
                                                lemma_resolve_state(st_mid, dm);
                                                assert(st_mid.slots.dom().insert(
                                                    name,
                                                ).subset_of(
                                                    spec_select_instruction(
                                                        st_top,
                                                        rb[0],
                                                    ).0.slots.dom(),
                                                ));
                                                lemma_err_case(st0, all, st_top, rb, st_mid, name);
                                            },
                                            ValueModel::Constant(_) => {
                                                assert(false);
                                            },
                                        }
                                    }
                                    return Err(e);
                                },
                                Ok(dst) => {
                                    let ghost s_opd = src@;
                                    let ghost d_opd = dst@;
                                    let src_stack = matches!(src, Opd::Stack(_));
                                    let dst_stack = matches!(dst, Opd::Stack(_));
                                    if src_stack && dst_stack {
                                        tp.push(Instruction::Mov(src, Opd::Reg(Reg::R10D)));
                                        tp.push(
                                            Instruction::Mov(
                                                Opd::Reg(Reg::R10D),
                                                clone_opd(&dst),
                                            ),
                                        );
                                    } else {
                                        tp.push(Instruction::Mov(src, clone_opd(&dst)));
                                    }
                                    tp.push(Instruction::Unary(UnaryOp::from(opr), dst));
                                    proof {
                                        let (st1, first) = spec_select_instruction(
                                            st_top,
                                            rb[0],
                                        );
                                        assert(asm_instr_models(tp@) =~= tp_pre + first);
                                        let out_rem2 = spec_select_instructions(
                                            self@,
                                            instr_models(instructions@),
                                        ).1;
                                        assert(tp_pre + (first + out_rem2) =~= (tp_pre + first)
                                            + out_rem2);
                                    }
                                },
                            }
                        },
                    }
                },
            }
        }
        proof {
            assert(instr_models(instructions@) =~= Seq::<InstrModel>::empty());
            assert(asm_instr_models(tp@) + Seq::<AsmInstrModel>::empty() =~= asm_instr_models(
                tp@,
            ));
            self.lemma_wf_state();
        }
        Ok(tp)
    }

    /// Selects a whole intermediate-representation program, which must
    /// hold exactly one function, into assembly, as
    /// [`spec_select_function`] describes. On success the output also
    /// carries the fixup invariant (no stack-to-stack move) and a frame
    /// allocation of four bytes per distinct temporary.
    pub fn parse(&mut self, program: zil_symbols::Program) -> (r: Result<Program, AsmError>)
        ensures
            ({
                let ir = ir_program_model(program@);
                if ir.len() != 1 {
                    r == Err::<Program, AsmError>(AsmError::FunctionCountNotOne)
                } else if instrs_vars(ir[0].instructions).len() > MAX_STACK_SLOTS {
                    r == Err::<Program, AsmError>(AsmError::FrameTooLarge)
                } else {
                    &&& r matches Ok(v) && asm_program_model(v@) == seq![
                        spec_select_function(ir[0]),
                    ]
                    &&& no_stack_stack_fun(spec_select_function(ir[0]))
                    &&& spec_select_function(ir[0]).instructions[0]
                        == AsmInstrModel::AllocateStack(
                        4 * instrs_vars(ir[0].instructions).len() as int,
                    )
                }
            }),
    {
        let ghost ir = ir_program_model(program@);
        self.stack_map = Vec::new();
        self.curr_offset = 0;
        proof {
            assert(self@.slots =~= init_state().slots);
        }
        let mut program = program;
        if program.len() != 1 {
            return Err(AsmError::FunctionCountNotOne);
        }
        let c = match program.pop() {
            Some(c) => c,
            None => {
                return Err(AsmError::FunctionCountNotOne);
            },
        };
        proof {
            assert(c@ == ir[0]);
        }
        match c {
            Construct::Function(def) => {
                let identifier = def.identifier;
                let ghost fim = instr_models(def.instructions@);
                let ghost st0 = self@;
                match self.parse_instructions(def.instructions) {
                    Err(e) => {
                        proof {
                            lemma_select_instructions_state(st0, fim);
                            assert(st0.slots.dom() + instrs_vars(fim) =~= instrs_vars(fim));
                        }
                        Err(e)
                    },
                    Ok(mut body) => {
                        proof {
                            self.lemma_wf_state();
                            lemma_select_instructions_state(st0, fim);
                            assert(st0.slots.dom() + instrs_vars(fim) =~= instrs_vars(fim));
                        }
                        let ghost body_pre = asm_instr_models(body@);
                        let alloc = 0 - self.curr_offset;
                        body.insert(0, Instruction::AllocateStack(alloc));
                        let mut out: Vec<Function> = Vec::new();
                        out.push(Function { identifier, instructions: body });
                        proof {
                            lemma_fixup_invariant(ir[0]);
                            lemma_frame_size(ir[0]);
                            let fout = out@[0];
                            assert(asm_instr_models(fout.instructions@) =~= seq![
                                AsmInstrModel::AllocateStack(alloc as int),
                            ] + body_pre);
                            assert(asm_program_model(out@) =~= seq![fout@]);
                            assert(fout@ == spec_select_function(ir[0]));
                        }
                        Ok(out)
                    },
                }
            },
        }
    }
}

fn clone_opd(o: &Opd) -> (r: Opd)
    ensures
        r@ == o@,
{
    match o {
        Opd::Imm(s) => Opd::Imm(s.clone()),
        Opd::Reg(rr) => Opd::Reg(*rr),
        Opd::Stack(k) => Opd::Stack(*k),
    }
}

proof fn lemma_err_case(
    st0: SelState,
    all: Seq<InstrModel>,
    st_top: SelState,
    rb: Seq<InstrModel>,
    stx: SelState,
    name: Seq<char>,
)
    requires
        state_ok(st_top),
        state_ok(stx),
        rb.len() > 0,
        spec_select_instructions(st0, all).0 == spec_select_instructions(st_top, rb).0,
        stx.slots.dom().insert(name).subset_of(
            spec_select_instruction(st_top, rb[0]).0.slots.dom(),
        ),
        stx.slots.dom().len() >= MAX_STACK_SLOTS,
        !stx.slots.dom().contains(name),
    ensures
        spec_select_instructions(st0, all).0.slots.dom().len() > MAX_STACK_SLOTS,
{
    let big = stx.slots.dom().insert(name);
    assert(big.len() == stx.slots.dom().len() + 1);
    lemma_select_instruction_state(st_top, rb[0]);
    let st1 = spec_select_instruction(st_top, rb[0]).0;
    lemma_select_instructions_state(st1, rb.drop_first());
    assert(spec_select_instructions(st_top, rb).0 == spec_select_instructions(
        st1,
        rb.drop_first(),
    ).0);
    assert(big.subset_of(spec_select_instructions(st_top, rb).0.slots.dom()));
    lemma_len_subset(big, spec_select_instructions(st_top, rb).0.slots.dom());
}

} // verus!
