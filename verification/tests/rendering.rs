use adder_jit::asm_text::{asm_program, instr_to_str, instrs_to_str, val_to_str};
use adder_jit::compile::compile_to_instrs;
use adder_jit::instr::{Instr, Reg, Val};
use adder_jit::parse::{parse_expr, SAtom, SExp};

fn num(n: i64) -> SExp {
    SExp::Atom(SAtom::I(n))
}

fn op(name: &str, arg: SExp) -> SExp {
    SExp::List(vec![SExp::Atom(SAtom::S(name.to_string())), arg])
}

#[test]
fn operand_rendering() {
    assert_eq!(val_to_str(&Val::Reg(Reg::RAX)), "RAX");
    assert_eq!(val_to_str(&Val::Imm(10)), "DWORD 10");
    assert_eq!(val_to_str(&Val::Imm(0)), "DWORD 0");
    assert_eq!(val_to_str(&Val::Imm(-3)), "DWORD -3");
    assert_eq!(val_to_str(&Val::Imm(i32::MAX)), "DWORD 2147483647");
    assert_eq!(val_to_str(&Val::Imm(i32::MIN)), "DWORD -2147483648");
}

#[test]
fn instruction_rendering() {
    assert_eq!(
        instr_to_str(&Instr::IMov(Val::Reg(Reg::RAX), Val::Imm(10))),
        "mov RAX, DWORD 10"
    );
    assert_eq!(
        instr_to_str(&Instr::IAdd(Val::Reg(Reg::RAX), Val::Imm(1))),
        "add RAX, DWORD 1"
    );
    assert_eq!(
        instr_to_str(&Instr::ISub(Val::Reg(Reg::RAX), Val::Imm(1))),
        "sub RAX, DWORD 1"
    );
}

#[test]
fn sub1_sub1_10_renders_three_lines() {
    let e = parse_expr(op("sub1", op("sub1", num(10)))).unwrap();
    let instrs = compile_to_instrs(&e);
    assert_eq!(
        instrs_to_str(&instrs),
        "mov RAX, DWORD 10\nsub RAX, DWORD 1\nsub RAX, DWORD 1"
    );
}

#[test]
fn rendering_is_deterministic() {
    let e = parse_expr(op("add1", op("sub1", num(99)))).unwrap();
    let instrs = compile_to_instrs(&e);
    let first = instrs_to_str(&instrs);
    let second = instrs_to_str(&instrs);
    assert_eq!(first, second);
    assert_eq!(asm_program(&instrs), asm_program(&instrs));
}

#[test]
fn program_template() {
    let e = parse_expr(op("add1", num(5))).unwrap();
    let instrs = compile_to_instrs(&e);
    let expected = "\nsection .text\nglobal our_code_starts_here\nour_code_starts_here:\n  \
                    mov RAX, DWORD 5\nadd RAX, DWORD 1\n  ret\n";
    assert_eq!(asm_program(&instrs), expected);
}

#[test]
fn empty_sequence_renders_empty() {
    let instrs: Vec<Instr> = vec![];
    assert_eq!(instrs_to_str(&instrs), "");
}
