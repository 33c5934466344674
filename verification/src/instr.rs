//! The instruction set model: operand kinds, opcodes, and the semantics of
//! running an instruction sequence on the single-accumulator machine.

use vstd::prelude::*;

verus! {

/// The registers of the target machine. Only the accumulator exists in this
/// design; keeping it an enumeration (rather than a raw index) means adding
/// registers later is a data-model change, not a rewrite of call sites.
#[derive(Clone, Copy, PartialEq, Eq, Structural, Debug)]
pub enum Reg {
    RAX,
}

/// An instruction operand: a register, or a 32-bit signed immediate.
#[derive(Clone, Copy, PartialEq, Eq, Structural, Debug)]
pub enum Val {
    Reg(Reg),
    Imm(i32),
}

/// An abstract machine instruction. Both operands are always
/// register-or-immediate; instructions never reference memory.
#[derive(Clone, Copy, PartialEq, Eq, Structural, Debug)]
pub enum Instr {
    IMov(Val, Val),
    IAdd(Val, Val),
    ISub(Val, Val),
}

/// The numeric encoding index of a register.
pub open spec fn spec_reg_index(r: Reg) -> u8 {
    match r {
        Reg::RAX => 0,
    }
}

/// Maps a register to its numeric encoding index.
pub fn reg_to_index(r: &Reg) -> (i: u8)
    ensures
        i == spec_reg_index(*r),
{
    match r {
        Reg::RAX => 0,
    }
}

/// The instruction shapes the emitters support: an opcode whose destination
/// is a register and whose source is an immediate. Anything else is an
/// `UnsupportedInstruction` condition, which the instruction selector is
/// defined never to produce.
pub open spec fn supported(i: Instr) -> bool {
    match i {
        Instr::IMov(Val::Reg(_), Val::Imm(_)) => true,
        Instr::IAdd(Val::Reg(_), Val::Imm(_)) => true,
        Instr::ISub(Val::Reg(_), Val::Imm(_)) => true,
        _ => false,
    }
}

/// Whether every instruction of a sequence is supported.
pub open spec fn all_supported(s: Seq<Instr>) -> bool {
    forall|k: int| 0 <= k < s.len() ==> supported(#[trigger] s[k])
}

/// Decides `supported` executably.
pub fn is_supported(i: &Instr) -> (r: bool)
    ensures
        r == supported(*i),
{
    match i {
        Instr::IMov(Val::Reg(_), Val::Imm(_)) => true,
        Instr::IAdd(Val::Reg(_), Val::Imm(_)) => true,
        Instr::ISub(Val::Reg(_), Val::Imm(_)) => true,
        _ => false,
    }
}

/// The effect of one instruction on the accumulator. The machine has a single
/// live register, so its whole state is the accumulator's content.
pub open spec fn step(acc: int, i: Instr) -> int {
    match i {
        Instr::IMov(_, Val::Imm(n)) => n as int,
        Instr::IAdd(_, Val::Imm(n)) => acc + n,
        Instr::ISub(_, Val::Imm(n)) => acc - n,
        _ => acc,
    }
}

/// The accumulator's content after executing a sequence in list order,
/// starting from `acc`.
pub open spec fn run_instrs(s: Seq<Instr>, acc: int) -> int
    decreases s.len(),
{
    if s.len() == 0 {
        acc
    } else {
        run_instrs(s.drop_first(), step(acc, s[0]))
    }
}

/// Running a concatenation is running the first part, then the second from
/// the state the first part left behind.
pub proof fn lemma_run_append(s1: Seq<Instr>, s2: Seq<Instr>, acc: int)
    ensures
        run_instrs(s1 + s2, acc) == run_instrs(s2, run_instrs(s1, acc)),
    decreases s1.len(),
{
    if s1.len() == 0 {
        assert(s1 + s2 =~= s2);
    } else {
        assert((s1 + s2).drop_first() =~= s1.drop_first() + s2);
        lemma_run_append(s1.drop_first(), s2, step(acc, s1[0]));
    }
}

/// Running a single instruction is stepping once.
pub proof fn lemma_run_single(i: Instr, acc: int)
    ensures
        run_instrs(seq![i], acc) == step(acc, i),
{
    let s = seq![i];
    assert(s.len() == 1 && s[0] == i);
    assert(s.drop_first() =~= Seq::<Instr>::empty());
    assert(run_instrs(s, acc) == run_instrs(s.drop_first(), step(acc, s[0])));
}

} // verus!
