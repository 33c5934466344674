use adder_jit::compile::compile_to_instrs;
use adder_jit::encode::encode_instr;
use adder_jit::instr::{Instr, Reg, Val};
use adder_jit::jit::{instr_to_asm, jit_program, CodeBuffer, JitError};
use adder_jit::parse::{parse_expr, SAtom, SExp};

fn num(n: i64) -> SExp {
    SExp::Atom(SAtom::I(n))
}

fn op(name: &str, arg: SExp) -> SExp {
    SExp::List(vec![SExp::Atom(SAtom::S(name.to_string())), arg])
}

fn mov_rax(n: i32) -> Instr {
    Instr::IMov(Val::Reg(Reg::RAX), Val::Imm(n))
}

#[test]
fn encode_mov() {
    assert_eq!(
        encode_instr(&mov_rax(5)),
        vec![0x48, 0xC7, 0xC0, 5, 0, 0, 0]
    );
}

#[test]
fn encode_negative_immediate() {
    assert_eq!(
        encode_instr(&mov_rax(-1)),
        vec![0x48, 0xC7, 0xC0, 0xFF, 0xFF, 0xFF, 0xFF]
    );
}

#[test]
fn encode_add_and_sub() {
    assert_eq!(
        encode_instr(&Instr::IAdd(Val::Reg(Reg::RAX), Val::Imm(1))),
        vec![0x48, 0x81, 0xC0, 1, 0, 0, 0]
    );
    assert_eq!(
        encode_instr(&Instr::ISub(Val::Reg(Reg::RAX), Val::Imm(1))),
        vec![0x48, 0x81, 0xE8, 1, 0, 0, 0]
    );
}

#[test]
fn committed_code_matches_encoding() {
    let e = parse_expr(op("add1", op("add1", num(5)))).unwrap();
    let instrs = compile_to_instrs(&e);
    let buf = jit_program(&instrs).unwrap();
    let mut expected: Vec<u8> = Vec::new();
    for i in &instrs {
        expected.extend_from_slice(&encode_instr(i));
    }
    expected.push(0xC3);
    assert_eq!(buf.committed_code(), expected);
}

#[test]
fn entry_only_after_commit() {
    let mut buf = CodeBuffer::new().unwrap();
    assert!(buf.entry().is_none());
    instr_to_asm(&mov_rax(7), &mut buf).unwrap();
    assert!(buf.entry().is_none());
    buf.emit_ret().unwrap();
    assert!(buf.entry().is_none());
    buf.commit().unwrap();
    assert!(buf.entry().is_some());
}

#[test]
fn unsupported_instruction_is_refused() {
    let bad = vec![Instr::IMov(Val::Imm(1), Val::Imm(2))];
    match jit_program(&bad) {
        Err(JitError::Unsupported) => {}
        _ => panic!("expected the unsupported-instruction failure"),
    }
    let mut buf = CodeBuffer::new().unwrap();
    assert_eq!(
        instr_to_asm(&Instr::IAdd(Val::Reg(Reg::RAX), Val::Reg(Reg::RAX)), &mut buf),
        Err(JitError::Unsupported)
    );
}

#[test]
fn alter_supersedes_prior_code() {
    let e = parse_expr(op("sub1", op("sub1", num(10)))).unwrap();
    let instrs = compile_to_instrs(&e);
    let mut buf = jit_program(&instrs).unwrap();
    let old_code = buf.committed_code();
    let first = buf.entry().unwrap();
    assert!(buf.check_handle(&first).is_ok());

    let replacement = vec![mov_rax(24)];
    assert!(buf.can_alter(&replacement));
    assert!(buf.generation_value() < u64::MAX);
    buf.alter(&replacement).unwrap();

    // The old handle is stale from the moment of the alteration.
    assert_eq!(buf.check_handle(&first), Err(JitError::Stale));

    buf.commit().unwrap();
    assert_eq!(buf.check_handle(&first), Err(JitError::Stale));

    let second = buf.entry().unwrap();
    assert!(buf.check_handle(&second).is_ok());
    assert_eq!(second.offset(), 0);

    // The new code heads the buffer: the replacement's bytes, the return,
    // and the now-unreachable tail of the old code.
    let mut expected: Vec<u8> = encode_instr(&mov_rax(24));
    expected.push(0xC3);
    expected.extend_from_slice(&old_code[expected.len()..]);
    assert_eq!(buf.committed_code(), expected);
}

#[test]
fn alter_needs_room() {
    let buf_instrs = vec![mov_rax(1)];
    let mut buf = jit_program(&buf_instrs).unwrap();
    let too_long = vec![mov_rax(2), mov_rax(3)];
    assert!(!buf.can_alter(&too_long));
    assert_eq!(buf.alter(&too_long), Err(JitError::Allocation));
    // A same-sized replacement fits: seven bytes plus the return.
    let fits = vec![mov_rax(2)];
    assert!(buf.can_alter(&fits));
    buf.alter(&fits).unwrap();
    buf.commit().unwrap();
    let mut expected = encode_instr(&mov_rax(2));
    expected.push(0xC3);
    assert_eq!(buf.committed_code(), expected);
}
