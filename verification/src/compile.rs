//! The instruction selector: lowers an expression into a flat instruction
//! sequence for the single-accumulator machine, by structural recursion in
//! post-order (children first, then the parent's effect).

use vstd::prelude::*;
use crate::ast::{Expr, eval, count_wrappers};
use crate::instr::{Instr, Val, Reg, supported, all_supported, run_instrs, step, lemma_run_append, lemma_run_single};

verus! {

/// The instruction sequence an expression lowers to: a literal becomes a
/// `Move` of the accumulator, and each wrapper appends one `Add` or
/// `Subtract` of the immediate 1 after its child's instructions.
pub open spec fn compile_spec(e: Expr) -> Seq<Instr>
    decreases e,
{
    match e {
        Expr::Num(n) => seq![Instr::IMov(Val::Reg(Reg::RAX), Val::Imm(n))],
        Expr::Add1(sub) => compile_spec(*sub).push(Instr::IAdd(Val::Reg(Reg::RAX), Val::Imm(1))),
        Expr::Sub1(sub) => compile_spec(*sub).push(Instr::ISub(Val::Reg(Reg::RAX), Val::Imm(1))),
    }
}

/// Appends the lowering of `e` to `cmds`, leaving what was already there in
/// place and in order.
pub fn compile_expr_instrs(e: &Expr, cmds: &mut Vec<Instr>)
    ensures
        final(cmds)@ == old(cmds)@ + compile_spec(*e),
    decreases *e,
{
    match e {
        Expr::Num(n) => {
            cmds.push(Instr::IMov(Val::Reg(Reg::RAX), Val::Imm(*n)));
            assert(cmds@ =~= old(cmds)@ + compile_spec(*e));
        }
        Expr::Add1(sub) => {
            compile_expr_instrs(sub, cmds);
            cmds.push(Instr::IAdd(Val::Reg(Reg::RAX), Val::Imm(1)));
            assert(cmds@ =~= old(cmds)@ + compile_spec(*e));
        }
        Expr::Sub1(sub) => {
            compile_expr_instrs(sub, cmds);
            cmds.push(Instr::ISub(Val::Reg(Reg::RAX), Val::Imm(1)));
            assert(cmds@ =~= old(cmds)@ + compile_spec(*e));
        }
    }
}

/// Lowers an expression to its full instruction sequence.
pub fn compile_to_instrs(e: &Expr) -> (v: Vec<Instr>)
    ensures
        v@ == compile_spec(*e),
{
    let mut v: Vec<Instr> = Vec::new();
    compile_expr_instrs(e, &mut v);
    assert(v@ =~= compile_spec(*e));
    v
}

/// Running the lowered sequence from any starting accumulator leaves the
/// accumulator holding the expression's value: the machine-code semantics
/// and the reference interpreter agree on every expression.
pub proof fn lemma_compile_correct(e: Expr, acc: int)
    ensures
        run_instrs(compile_spec(e), acc) == eval(e),
    decreases e,
{
    match e {
        Expr::Num(n) => {
            lemma_run_single(Instr::IMov(Val::Reg(Reg::RAX), Val::Imm(n)), acc);
        }
        Expr::Add1(sub) => {
            let tail = Instr::IAdd(Val::Reg(Reg::RAX), Val::Imm(1));
            lemma_compile_correct(*sub, acc);
            assert(compile_spec(e) =~= compile_spec(*sub) + seq![tail]);
            lemma_run_append(compile_spec(*sub), seq![tail], acc);
            lemma_run_single(tail, eval(*sub));
        }
        Expr::Sub1(sub) => {
            let tail = Instr::ISub(Val::Reg(Reg::RAX), Val::Imm(1));
            lemma_compile_correct(*sub, acc);
            assert(compile_spec(e) =~= compile_spec(*sub) + seq![tail]);
            lemma_run_append(compile_spec(*sub), seq![tail], acc);
            lemma_run_single(tail, eval(*sub));
        }
    }
}

/// The lowered sequence has exactly one instruction more than the number of
/// `add1`/`sub1` wrappers: one `Move` for the literal, one `Add` or
/// `Subtract` per wrapper.
pub proof fn lemma_compile_len(e: Expr)
    ensures
        compile_spec(e).len() == 1 + count_wrappers(e),
    decreases e,
{
    match e {
        Expr::Num(_) => {}
        Expr::Add1(sub) => lemma_compile_len(*sub),
        Expr::Sub1(sub) => lemma_compile_len(*sub),
    }
}

/// Every lowered sequence begins with a `Move` of the accumulator: no
/// instruction ever reads the accumulator before an earlier one has written
/// it, which is what lets the machine start from an undefined accumulator.
pub proof fn lemma_compile_starts_with_move(e: Expr)
    ensures
        compile_spec(e).len() > 0,
        compile_spec(e)[0] matches Instr::IMov(Val::Reg(Reg::RAX), Val::Imm(_)),
    decreases e,
{
    match e {
        Expr::Num(_) => {}
        Expr::Add1(sub) => lemma_compile_starts_with_move(*sub),
        Expr::Sub1(sub) => lemma_compile_starts_with_move(*sub),
    }
}

/// The instruction selector only emits supported instruction shapes, which
/// is why an unsupported shape downstream is an unreachable-state condition
/// rather than a user-facing error.
pub proof fn lemma_compile_supported(e: Expr)
    ensures
        all_supported(compile_spec(e)),
    decreases e,
{
    match e {
        Expr::Num(_) => {}
        Expr::Add1(sub) => lemma_compile_supported(*sub),
        Expr::Sub1(sub) => lemma_compile_supported(*sub),
    }
}

} // verus!
