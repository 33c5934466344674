use adder_jit::ast::{interp, try_interp, Expr};
use adder_jit::compile::compile_to_instrs;
use adder_jit::instr::{Instr, Reg, Val};
use adder_jit::parse::{parse_expr, ParseError, SAtom, SExp};

fn num(n: i64) -> SExp {
    SExp::Atom(SAtom::I(n))
}

fn op(name: &str, arg: SExp) -> SExp {
    SExp::List(vec![SExp::Atom(SAtom::S(name.to_string())), arg])
}

#[test]
fn parse_literal() {
    let e = parse_expr(num(42)).unwrap();
    assert!(matches!(e, Expr::Num(42)));
}

#[test]
fn parse_add1_wrapper() {
    let e = parse_expr(op("add1", num(5))).unwrap();
    match e {
        Expr::Add1(inner) => assert!(matches!(*inner, Expr::Num(5))),
        _ => panic!("expected Add1"),
    }
}

#[test]
fn parse_negative_literal() {
    let e = parse_expr(num(-7)).unwrap();
    assert!(matches!(e, Expr::Num(-7)));
}

#[test]
fn parse_rejects_out_of_range_literal() {
    match parse_expr(num(9999999999)) {
        Err(ParseError::Range(n)) => assert_eq!(n, 9999999999),
        _ => panic!("expected a range error"),
    }
}

#[test]
fn parse_rejects_wrong_arity() {
    let bad = SExp::List(vec![
        SExp::Atom(SAtom::S("add1".to_string())),
        num(1),
        num(2),
    ]);
    match parse_expr(bad) {
        Err(ParseError::Syntax(SExp::List(v))) => assert_eq!(v.len(), 3),
        _ => panic!("expected a syntax error"),
    }
}

#[test]
fn parse_rejects_unknown_operator() {
    match parse_expr(op("mul2", num(1))) {
        Err(ParseError::Syntax(_)) => {}
        _ => panic!("expected a syntax error"),
    }
}

#[test]
fn parse_rejects_bare_symbol() {
    match parse_expr(SExp::Atom(SAtom::S("x".to_string()))) {
        Err(ParseError::Syntax(_)) => {}
        _ => panic!("expected a syntax error"),
    }
}

#[test]
fn parse_reports_deep_range_error() {
    match parse_expr(op("add1", num(i64::from(i32::MAX) + 1))) {
        Err(ParseError::Range(n)) => assert_eq!(n, i64::from(i32::MAX) + 1),
        _ => panic!("expected a range error"),
    }
}

#[test]
fn compile_literal_is_one_move() {
    let e = parse_expr(num(3)).unwrap();
    let instrs = compile_to_instrs(&e);
    assert_eq!(
        instrs,
        vec![Instr::IMov(Val::Reg(Reg::RAX), Val::Imm(3))]
    );
}

#[test]
fn compile_sub1_sub1_10() {
    let e = parse_expr(op("sub1", op("sub1", num(10)))).unwrap();
    let instrs = compile_to_instrs(&e);
    assert_eq!(
        instrs,
        vec![
            Instr::IMov(Val::Reg(Reg::RAX), Val::Imm(10)),
            Instr::ISub(Val::Reg(Reg::RAX), Val::Imm(1)),
            Instr::ISub(Val::Reg(Reg::RAX), Val::Imm(1)),
        ]
    );
    assert_eq!(interp(&e), 8);
}

#[test]
fn instruction_count_is_one_plus_wrappers() {
    let e0 = parse_expr(num(9)).unwrap();
    assert_eq!(compile_to_instrs(&e0).len(), 1);

    let e2 = parse_expr(op("add1", op("add1", num(5)))).unwrap();
    assert_eq!(compile_to_instrs(&e2).len(), 3);

    let e3 = parse_expr(op("sub1", op("add1", op("sub1", num(0))))).unwrap();
    assert_eq!(compile_to_instrs(&e3).len(), 4);
}

#[test]
fn interp_matches_expected_values() {
    let e = parse_expr(op("add1", op("add1", num(5)))).unwrap();
    assert_eq!(interp(&e), 7);

    let e = parse_expr(op("sub1", num(0))).unwrap();
    assert_eq!(interp(&e), -1);
}

#[test]
fn try_interp_detects_overflow() {
    let e = Expr::Add1(Box::new(Expr::Num(i32::MAX)));
    assert_eq!(try_interp(&e), None);

    let e = Expr::Sub1(Box::new(Expr::Num(i32::MIN)));
    assert_eq!(try_interp(&e), None);

    let e = Expr::Add1(Box::new(Expr::Num(41)));
    assert_eq!(try_interp(&e), Some(42));
}
