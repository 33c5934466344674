//! The assembly text emitter: renders each instruction as one line of
//! assembly syntax and wraps the block in a minimal compilation-unit
//! template. Rendering is a pure function of the instruction sequence.

use vstd::prelude::*;
use vstd::string::StringExecFns;
use crate::instr::{Instr, Val, Reg};

verus! {

/// The decimal digit character for `d` (meaningful for `d < 10`).
pub open spec fn digit_char(d: nat) -> char {
    if d == 0 { '0' }
    else if d == 1 { '1' }
    else if d == 2 { '2' }
    else if d == 3 { '3' }
    else if d == 4 { '4' }
    else if d == 5 { '5' }
    else if d == 6 { '6' }
    else if d == 7 { '7' }
    else if d == 8 { '8' }
    else { '9' }
}

/// The decimal digits of `n`, most significant first, with no leading zeros
/// except for `n == 0` itself.
pub open spec fn dec_chars(n: nat) -> Seq<char>
    decreases n,
{
    if n < 10 {
        seq![digit_char(n)]
    } else {
        dec_chars(n / 10).push(digit_char(n % 10))
    }
}

/// The decimal rendering of a possibly negative integer.
pub open spec fn int_chars(n: int) -> Seq<char> {
    if n < 0 {
        seq!['-'] + dec_chars((-n) as nat)
    } else {
        dec_chars(n as nat)
    }
}

/// How one operand renders: a register by its symbolic name, an immediate
/// with an explicit size-and-value annotation.
pub open spec fn val_chars(v: Val) -> Seq<char> {
    match v {
        Val::Reg(Reg::RAX) => "RAX"@,
        Val::Imm(n) => "DWORD "@ + int_chars(n as int),
    }
}

/// How one instruction renders as a line of assembly.
pub open spec fn instr_chars(i: Instr) -> Seq<char> {
    match i {
        Instr::IMov(v1, v2) => "mov "@ + val_chars(v1) + ", "@ + val_chars(v2),
        Instr::IAdd(v1, v2) => "add "@ + val_chars(v1) + ", "@ + val_chars(v2),
        Instr::ISub(v1, v2) => "sub "@ + val_chars(v1) + ", "@ + val_chars(v2),
    }
}

/// How a whole sequence renders: one line per instruction, joined by
/// newlines.
pub open spec fn instrs_chars(s: Seq<Instr>) -> Seq<char>
    decreases s.len(),
{
    if s.len() == 0 {
        Seq::empty()
    } else if s.len() == 1 {
        instr_chars(s[0])
    } else {
        instr_chars(s[0]) + "\n"@ + instrs_chars(s.drop_first())
    }
}

/// Extending a sequence appends a newline (when something precedes) and the
/// new instruction's line.
pub proof fn lemma_instrs_chars_snoc(s: Seq<Instr>, i: Instr)
    ensures
        instrs_chars(s.push(i)) == if s.len() == 0 {
            instr_chars(i)
        } else {
            instrs_chars(s) + "\n"@ + instr_chars(i)
        },
    decreases s.len(),
{
    if s.len() == 0 {
        assert(s.push(i)[0] == i);
    } else {
        assert(s.push(i)[0] == s[0]);
        assert(s.push(i).drop_first() =~= s.drop_first().push(i));
        lemma_instrs_chars_snoc(s.drop_first(), i);
        if s.len() == 1 {
            assert(instrs_chars(s.push(i)) =~= instrs_chars(s) + "\n"@ + instr_chars(i));
        } else {
            assert(instrs_chars(s.push(i)) =~= instrs_chars(s) + "\n"@ + instr_chars(i));
        }
    }
}

/// The fixed compilation-unit template: section declaration, global symbol
/// export, entry label, the instruction lines, and a trailing return.
pub open spec fn program_chars(s: Seq<Instr>) -> Seq<char> {
    "\nsection .text\nglobal our_code_starts_here\nour_code_starts_here:\n  "@
        + instrs_chars(s) + "\n  ret\n"@
}

/// The one-character string for a decimal digit.
fn digit_str(d: u32) -> (r: &'static str)
    requires
        d < 10,
    ensures
        r@ == seq![digit_char(d as nat)],
{
    proof {
        reveal_strlit("0");
        reveal_strlit("1");
        reveal_strlit("2");
        reveal_strlit("3");
        reveal_strlit("4");
        reveal_strlit("5");
        reveal_strlit("6");
        reveal_strlit("7");
        reveal_strlit("8");
        reveal_strlit("9");
    }
    let r = if d == 0 { "0" }
    else if d == 1 { "1" }
    else if d == 2 { "2" }
    else if d == 3 { "3" }
    else if d == 4 { "4" }
    else if d == 5 { "5" }
    else if d == 6 { "6" }
    else if d == 7 { "7" }
    else if d == 8 { "8" }
    else { "9" };
    assert(r@ =~= seq![digit_char(d as nat)]);
    r
}

/// Renders an unsigned number in decimal.
fn u32_to_dec(n: u32) -> (r: String)
    ensures
        r@ == dec_chars(n as nat),
    decreases n,
{
    if n < 10 {
        String::from_str(digit_str(n))
    } else {
        let mut s = u32_to_dec(n / 10);
        s.append(digit_str(n % 10));
        assert(s@ =~= dec_chars(n as nat));
        s
    }
}

/// Renders one operand: a register operand as its name, an immediate as
/// `DWORD` followed by its decimal value.
pub fn val_to_str(v: &Val) -> (r: String)
    ensures
        r@ == val_chars(*v),
{
    match v {
        Val::Reg(Reg::RAX) => {
            proof {
                reveal_strlit("RAX");
            }
            String::from_str("RAX")
        }
        Val::Imm(n) => {
            proof {
                reveal_strlit("DWORD ");
                reveal_strlit("-");
            }
            let mut s = String::from_str("DWORD ");
            if *n < 0 {
                s.append("-");
                let mag = (-(*n as i64)) as u32;
                assert(mag as nat == (-(*n as int)) as nat);
                s.append(u32_to_dec(mag).as_str());
            } else {
                s.append(u32_to_dec(*n as u32).as_str());
            }
            assert(s@ =~= val_chars(*v));
            s
        }
    }
}

/// Renders one instruction as one line of assembly.
pub fn instr_to_str(i: &Instr) -> (r: String)
    ensures
        r@ == instr_chars(*i),
{
    proof {
        reveal_strlit("mov ");
        reveal_strlit("add ");
        reveal_strlit("sub ");
        reveal_strlit(", ");
    }
    let (mnemonic, v1, v2) = match i {
        Instr::IMov(v1, v2) => ("mov ", v1, v2),
        Instr::IAdd(v1, v2) => ("add ", v1, v2),
        Instr::ISub(v1, v2) => ("sub ", v1, v2),
    };
    let mut s = String::from_str(mnemonic);
    s.append(val_to_str(v1).as_str());
    s.append(", ");
    s.append(val_to_str(v2).as_str());
    assert(s@ =~= instr_chars(*i));
    s
}

/// Renders a sequence, one line per instruction, joined by newlines.
pub fn instrs_to_str(cmds: &Vec<Instr>) -> (r: String)
    ensures
        r@ == instrs_chars(cmds@),
{
    proof {
        reveal_strlit("\n");
    }
    let mut s = String::new();
    let mut idx: usize = 0;
    while idx < cmds.len()
        invariant
            idx <= cmds.len(),
            s@ == instrs_chars(cmds@.take(idx as int)),
        decreases cmds.len() - idx,
    {
        proof {
            reveal_strlit("\n");
        }
        if idx > 0 {
            s.append("\n");
        }
        s.append(instr_to_str(&cmds[idx as usize]).as_str());
        proof {
            lemma_instrs_chars_snoc(cmds@.take(idx as int), cmds@[idx as int]);
            assert(cmds@.take(idx as int).push(cmds@[idx as int]) =~= cmds@.take(idx as int + 1));
        }
        idx = idx + 1;
    }
    assert(cmds@.take(cmds@.len() as int) =~= cmds@);
    s
}

/// Renders the full textual unit an external assembler could consume.
pub fn asm_program(cmds: &Vec<Instr>) -> (r: String)
    ensures
        r@ == program_chars(cmds@),
{
    proof {
        reveal_strlit("\nsection .text\nglobal our_code_starts_here\nour_code_starts_here:\n  ");
        reveal_strlit("\n  ret\n");
    }
    let mut s = String::from_str(
        "\nsection .text\nglobal our_code_starts_here\nour_code_starts_here:\n  ",
    );
    s.append(instrs_to_str(cmds).as_str());
    s.append("\n  ret\n");
    assert(s@ =~= program_chars(cmds@));
    s
}

/// Rendering is deterministic: the text is a function of the instruction
/// sequence alone, so rendering the same sequence twice yields identical
/// text. Together with the contracts of `instrs_to_str` and `asm_program`,
/// any two renderings of equal sequences are equal.
pub proof fn lemma_render_deterministic(a: Seq<Instr>, b: Seq<Instr>)
    requires
        a == b,
    ensures
        instrs_chars(a) == instrs_chars(b),
        program_chars(a) == program_chars(b),
{
}

} // verus!
