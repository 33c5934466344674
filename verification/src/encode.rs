//! The machine-code encoding of the instruction set: each supported
//! instruction becomes seven x86-64 bytes (REX.W prefix, opcode, ModRM, and a
//! four-byte little-endian immediate), and a return is the single byte 0xC3.

use vstd::prelude::*;
use crate::instr::{Instr, Val, Reg, spec_reg_index, supported, all_supported, reg_to_index, is_supported};

verus! {

/// The encoding of the `ret` instruction.
pub const RET_BYTE: u8 = 0xC3;

/// The four little-endian bytes of a 32-bit immediate.
pub open spec fn imm_bytes(n: i32) -> Seq<u8> {
    seq![
        ((n as u32) % 256) as u8,
        (((n as u32) / 256) % 256) as u8,
        (((n as u32) / 65536) % 256) as u8,
        (((n as u32) / 16777216) % 256) as u8,
    ]
}

/// The machine bytes of one instruction. The three supported opcodes use the
/// 64-bit register-destination, immediate-source forms: `mov` is opcode 0xC7
/// with ModRM extension 0, `add` is 0x81 with extension 0, and `sub` is 0x81
/// with extension 5; each carries a REX.W prefix and a 32-bit immediate that
/// the processor sign-extends. An unsupported shape encodes to nothing.
pub open spec fn enc_instr(i: Instr) -> Seq<u8> {
    match i {
        Instr::IMov(Val::Reg(r), Val::Imm(n)) =>
            seq![0x48u8, 0xC7u8, ((0xC0 + spec_reg_index(r) as int) as u8)] + imm_bytes(n),
        Instr::IAdd(Val::Reg(r), Val::Imm(n)) =>
            seq![0x48u8, 0x81u8, ((0xC0 + spec_reg_index(r) as int) as u8)] + imm_bytes(n),
        Instr::ISub(Val::Reg(r), Val::Imm(n)) =>
            seq![0x48u8, 0x81u8, ((0xE8 + spec_reg_index(r) as int) as u8)] + imm_bytes(n),
        _ => Seq::empty(),
    }
}

/// The machine bytes of a whole sequence, in list order.
pub open spec fn enc_seq(s: Seq<Instr>) -> Seq<u8>
    decreases s.len(),
{
    if s.len() == 0 {
        Seq::empty()
    } else {
        enc_instr(s[0]) + enc_seq(s.drop_first())
    }
}

/// Encoding a sequence extended by one instruction appends that
/// instruction's bytes.
pub proof fn lemma_enc_seq_snoc(s: Seq<Instr>, i: Instr)
    ensures
        enc_seq(s.push(i)) == enc_seq(s) + enc_instr(i),
    decreases s.len(),
{
    if s.len() == 0 {
        assert(s.push(i)[0] == i);
        assert(s.push(i).drop_first() =~= Seq::<Instr>::empty());
        assert(enc_seq(Seq::<Instr>::empty()) =~= Seq::<u8>::empty());
        assert(enc_seq(s.push(i)) == enc_instr(i) + enc_seq(s.push(i).drop_first()));
        assert(enc_seq(s.push(i)) =~= enc_seq(s) + enc_instr(i));
    } else {
        assert(s.push(i).drop_first() =~= s.drop_first().push(i));
        lemma_enc_seq_snoc(s.drop_first(), i);
        assert(s.push(i)[0] == s[0]);
        assert(enc_seq(s.push(i)) == enc_instr(s[0]) + enc_seq(s.drop_first().push(i)));
        assert(enc_seq(s.push(i)) =~= enc_seq(s) + enc_instr(i));
    }
}

/// Every supported instruction encodes to exactly seven bytes.
pub proof fn lemma_enc_instr_len(i: Instr)
    requires
        supported(i),
    ensures
        enc_instr(i).len() == 7,
{
}

/// A sequence of supported instructions encodes to seven bytes each.
pub proof fn lemma_enc_seq_len(s: Seq<Instr>)
    requires
        all_supported(s),
    ensures
        enc_seq(s).len() == 7 * s.len(),
    decreases s.len(),
{
    if s.len() > 0 {
        assert(supported(s[0]));
        lemma_enc_seq_len(s.drop_first());
    }
}

/// Appends the four little-endian immediate bytes of `n`.
fn push_imm(v: &mut Vec<u8>, n: i32)
    ensures
        final(v)@ == old(v)@ + imm_bytes(n),
{
    let u = n as u32;
    v.push((u % 256) as u8);
    v.push(((u / 256) % 256) as u8);
    v.push(((u / 65536) % 256) as u8);
    v.push(((u / 16777216) % 256) as u8);
    assert(v@ =~= old(v)@ + imm_bytes(n));
}

/// Encodes one supported instruction to its machine bytes.
pub fn encode_instr(i: &Instr) -> (r: Vec<u8>)
    requires
        supported(*i),
    ensures
        r@ == enc_instr(*i),
{
    let mut v: Vec<u8> = Vec::new();
    match i {
        Instr::IMov(Val::Reg(rg), Val::Imm(n)) => {
            v.push(0x48);
            v.push(0xC7);
            v.push(0xC0 + reg_to_index(rg));
            push_imm(&mut v, *n);
            assert(v@ =~= enc_instr(*i));
        }
        Instr::IAdd(Val::Reg(rg), Val::Imm(n)) => {
            v.push(0x48);
            v.push(0x81);
            v.push(0xC0 + reg_to_index(rg));
            push_imm(&mut v, *n);
            assert(v@ =~= enc_instr(*i));
        }
        Instr::ISub(Val::Reg(rg), Val::Imm(n)) => {
            v.push(0x48);
            v.push(0x81);
            v.push(0xE8 + reg_to_index(rg));
            push_imm(&mut v, *n);
            assert(v@ =~= enc_instr(*i));
        }
        _ => {
            proof {
                assert(!supported(*i));
            }
        }
    }
    v
}

} // verus!
