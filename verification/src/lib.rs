//! A tiny compiler and JIT runtime for an arithmetic expression language of
//! integer literals plus unary increment (`add1`) and decrement (`sub1`).
//!
//! The pipeline lowers a parenthesized-atom tree to a typed expression,
//! selects instructions for a single-accumulator register machine, renders
//! them as assembly text, encodes them as x86-64 machine bytes into a
//! rewritable code buffer, and hands out generation-tagged entry handles so
//! that a handle acquired before the buffer was altered can be detected as
//! stale instead of silently running changed bytes.

pub mod instr;
pub mod ast;
pub mod compile;
pub mod encode;
pub mod asm_text;
pub mod parse;
pub mod jit;
