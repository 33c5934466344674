//! The syntax tree builder: turns a generic parenthesized-atom tree into the
//! typed expression tree. The textual tokenizer that produces the generic
//! tree is an external collaborator; this module consumes its output, held
//! here as plain values.

use vstd::prelude::*;
use crate::ast::Expr;

verus! {

/// An atom of the generic tree: an integer, or a symbol. (An atom of any
/// other lexical kind can be carried as a symbol; every non-integer atom is
/// rejected by the builder anyway.)
#[derive(Debug)]
pub enum SAtom {
    I(i64),
    S(String),
}

/// A generic parenthesized-atom tree: an atom, or a list of subtrees.
#[derive(Debug)]
pub enum SExp {
    Atom(SAtom),
    List(Vec<SExp>),
}

/// The errors of syntax tree building: a malformed node (carried so the
/// offending node can be named), or an integer literal outside the 32-bit
/// signed range.
#[derive(Debug)]
pub enum ParseError {
    Syntax(SExp),
    Range(i64),
}

/// Whether an integer literal is representable in 32 bits signed.
pub open spec fn in_i32(n: i64) -> bool {
    i32::MIN <= n <= i32::MAX
}

/// Whether a node locally has one of the two grammatical shapes: a bare
/// integer atom, or a two-element list headed by the operator token `add1`
/// or `sub1`.
pub open spec fn shape_ok(s: SExp) -> bool {
    match s {
        SExp::Atom(SAtom::I(_)) => true,
        SExp::Atom(SAtom::S(_)) => false,
        SExp::List(v) => v@.len() == 2 && match v@[0] {
            SExp::Atom(SAtom::S(op)) => op@ == "add1"@ || op@ == "sub1"@,
            _ => false,
        },
    }
}

/// Whether the whole tree is well formed: grammatical at every node, with
/// every integer literal in 32-bit range.
pub open spec fn tree_wf(s: SExp) -> bool
    decreases s,
{
    match s {
        SExp::Atom(SAtom::I(n)) => in_i32(n),
        SExp::Atom(SAtom::S(_)) => false,
        SExp::List(v) => shape_ok(s) && tree_wf(v@[1]),
    }
}

/// The relation between a tree and the expression it builds: an integer atom
/// builds its literal, and a two-element `add1`/`sub1` list builds the
/// corresponding wrapper of what its second element builds.
pub open spec fn parses_to(s: SExp, e: Expr) -> bool
    decreases s,
{
    match s {
        SExp::Atom(SAtom::I(n)) => in_i32(n) && e == Expr::Num(n as i32),
        SExp::Atom(SAtom::S(_)) => false,
        SExp::List(v) => v@.len() == 2 && match v@[0] {
            SExp::Atom(SAtom::S(op)) => match e {
                Expr::Add1(sub) => op@ == "add1"@ && parses_to(v@[1], *sub),
                Expr::Sub1(sub) => op@ == "sub1"@ && parses_to(v@[1], *sub),
                Expr::Num(_) => false,
            },
            _ => false,
        },
    }
}

/// The error an ill-formed tree is rejected with: the shallowest locally
/// malformed node as a syntax error, or else the out-of-range literal the
/// recursion reaches.
pub open spec fn parse_err(s: SExp) -> ParseError
    decreases s,
{
    if !shape_ok(s) {
        ParseError::Syntax(s)
    } else {
        match s {
            SExp::Atom(SAtom::I(n)) => ParseError::Range(n),
            SExp::List(v) => parse_err(v@[1]),
            SExp::Atom(SAtom::S(_)) => ParseError::Syntax(s),
        }
    }
}

/// A tree builds at most one expression.
pub proof fn lemma_parses_to_unique(s: SExp, e1: Expr, e2: Expr)
    requires
        parses_to(s, e1),
        parses_to(s, e2),
    ensures
        e1 == e2,
    decreases s,
{
    reveal_strlit("add1");
    reveal_strlit("sub1");
    assert("add1"@[0] == 'a' && "sub1"@[0] == 's');
    assert("add1"@ != "sub1"@);
    match s {
        SExp::Atom(_) => {}
        SExp::List(v) => {
            match (e1, e2) {
                (Expr::Add1(a), Expr::Add1(b)) => {
                    lemma_parses_to_unique(v@[1], *a, *b);
                }
                (Expr::Sub1(a), Expr::Sub1(b)) => {
                    lemma_parses_to_unique(v@[1], *a, *b);
                }
                _ => {}
            }
        }
    }
}

/// Builds the typed expression from a generic tree. Returns the expression
/// exactly when the tree is well formed; otherwise the error `parse_err`
/// assigns: `Range` for an in-shape literal outside 32 bits, `Syntax` naming
/// the offending node for any other malformation.
pub fn parse_expr(s: SExp) -> (r: Result<Expr, ParseError>)
    ensures
        match r {
            Ok(e) => tree_wf(s) && parses_to(s, e),
            Err(err) => !tree_wf(s) && err == parse_err(s),
        },
    decreases s,
{
    match s {
        SExp::Atom(SAtom::I(n)) => {
            if i32::MIN as i64 <= n && n <= i32::MAX as i64 {
                Ok(Expr::Num(n as i32))
            } else {
                Err(ParseError::Range(n))
            }
        }
        SExp::Atom(a) => Err(ParseError::Syntax(SExp::Atom(a))),
        SExp::List(mut v) => {
            let ghost v0 = v@;
            let good_head = v.len() == 2 && match &v[0] {
                SExp::Atom(SAtom::S(op)) => {
                    *op == String::from_str("add1") || *op == String::from_str("sub1")
                }
                _ => false,
            };
            if good_head {
                let is_add = match &v[0] {
                    SExp::Atom(SAtom::S(op)) => *op == String::from_str("add1"),
                    _ => false,
                };
                let second = v.pop().unwrap();
                assert(second == v0[1]);
                assert(decreases_to!(s => second));
                match parse_expr(second) {
                    Ok(sub) => {
                        if is_add {
                            Ok(Expr::Add1(Box::new(sub)))
                        } else {
                            Ok(Expr::Sub1(Box::new(sub)))
                        }
                    }
                    Err(err) => Err(err),
                }
            } else {
                Err(ParseError::Syntax(SExp::List(v)))
            }
        }
    }
}

} // verus!
