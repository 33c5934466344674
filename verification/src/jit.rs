//! The machine code emitter and JIT runtime: a code buffer that is grown by
//! appending encoded instructions, committed into executable memory, and
//! optionally altered in place and recommitted. Entry handles into the
//! committed code are tagged with the buffer's generation, so a handle
//! acquired before an alteration is detected as stale instead of silently
//! running changed bytes.
//!
//! The executable memory itself is managed by `dynasmrt`. Every call into it
//! goes through one of the `external_body` wrappers below; this module
//! records no labels and no relocations, only plain bytes, so the
//! label-resolution failure paths of `dynasmrt` are never taken.

use vstd::prelude::*;
use dynasmrt::DynasmApi;
use crate::instr::{Instr, Val, Reg, supported, all_supported, run_instrs, is_supported};
use crate::encode::{RET_BYTE, enc_seq, encode_instr, lemma_enc_seq_snoc, lemma_enc_instr_len, lemma_enc_seq_len};

verus! {

/// The failures of the emitter and runtime: executable memory could not be
/// obtained; an instruction shape the emitter does not support; an entry
/// handle that no longer matches the buffer's generation; or a failure
/// reported by the underlying assembler, which label-free use never takes.
#[derive(Clone, Copy, PartialEq, Eq, Structural, Debug)]
pub enum JitError {
    Allocation,
    Unsupported,
    Stale,
    Internal,
}

/// Holds the `dynasmrt` x64 assembler, opaquely: the assembler's relocation
/// type parameter carries a trait of that crate, which keeps the type from
/// being declared to the verifier directly. Every use from verified code
/// goes through the wrappers below; the field is public so that the
/// unverified runner can lock the committed buffer and jump into it.
#[verifier::external_body]
pub struct Asm {
    pub inner: dynasmrt::x64::Assembler,
}

/// The code an assembler holds: everything appended to it since creation
/// (with any alteration applied), whether or not yet committed.
pub uninterp spec fn asm_code(a: Asm) -> Seq<u8>;

/// The bytes an assembler has committed into executable memory, the ones an
/// executor reads and runs.
pub uninterp spec fn asm_committed(a: Asm) -> Seq<u8>;

/// Relies on `dynasmrt::Assembler::new`: a fresh assembler holds no code and
/// has committed nothing; the only failure is the initial mapping of
/// executable memory.
#[verifier::external_body]
fn asm_new() -> (r: Result<Asm, JitError>)
    ensures
        match r {
            Ok(a) => asm_code(a) == Seq::<u8>::empty() && asm_committed(a) == Seq::<u8>::empty(),
            Err(e) => e == JitError::Allocation,
        },
{
    match dynasmrt::x64::Assembler::new() {
        Ok(a) => Ok(Asm { inner: a }),
        Err(_) => Err(JitError::Allocation),
    }
}

/// Relies on `DynasmApi::push` for `Assembler`: appends one byte to the
/// pending code and leaves the committed bytes as they were.
#[verifier::external_body]
fn asm_push(a: &mut Asm, byte: u8)
    ensures
        asm_code(*final(a)) == asm_code(*old(a)).push(byte),
        asm_committed(*final(a)) == asm_committed(*old(a)),
{
    a.inner.push(byte);
}

/// Relies on `Assembler::commit`: flushes the pending code into the
/// executable mapping, making the whole code committed. With no labels or
/// relocations ever recorded — the only use this crate makes of the
/// assembler — the error paths of `commit` cannot be taken; an error is
/// surfaced as `Internal` and promises nothing about the assembler's state.
#[verifier::external_body]
fn asm_commit(a: &mut Asm) -> (r: Result<(), JitError>)
    ensures
        match r {
            Ok(()) => asm_code(*final(a)) == asm_code(*old(a))
                && asm_committed(*final(a)) == asm_code(*old(a)),
            Err(e) => e == JitError::Internal,
        },
{
    match a.inner.commit() {
        Ok(()) => Ok(()),
        Err(_) => Err(JitError::Internal),
    }
}

/// Relies on `Assembler::alter` and the `Extend` implementation of its
/// `Modifier`: `alter` first commits pending code, then hands the closure a
/// cursor at offset zero of the executable region, remapped writable;
/// extending through it overwrites the committed bytes in place, stopping at
/// the region's end — the requires keeps the new bytes inside it — and the
/// region is remapped executable afterwards. With no labels or relocations
/// recorded the error paths cannot be taken; an error is surfaced as
/// `Internal` and promises nothing about the assembler's state.
#[verifier::external_body]
fn asm_overwrite_start(a: &mut Asm, bytes: &Vec<u8>) -> (r: Result<
    (),
    JitError,
>)
    requires
        bytes@.len() <= asm_code(*old(a)).len(),
    ensures
        match r {
            Ok(()) => asm_code(*final(a)) == bytes@ + asm_code(*old(a)).skip(bytes@.len() as int)
                && asm_committed(*final(a)) == asm_code(*final(a)),
            Err(e) => e == JitError::Internal,
        },
{
    match a.inner.alter(|m| {
        m.extend(bytes.iter());
    }) {
        Ok(()) => Ok(()),
        Err(_) => Err(JitError::Internal),
    }
}

/// Relies on `Assembler::reader`, `Executor::lock` and the `Deref` of
/// `ExecutableBuffer`: the locked buffer reads as exactly the committed
/// bytes.
#[verifier::external_body]
fn asm_committed_bytes(a: &Asm) -> (r: Vec<u8>)
    ensures
        r@ == asm_committed(*a),
{
    let reader = a.inner.reader();
    let guard = reader.lock();
    guard.to_vec()
}

/// The one mutable code region of the system. Grown by appending encoded
/// instructions, finished with a trailing return, committed to become
/// executable, and optionally altered in place and recommitted. The ghost
/// `prog` is the instruction sequence whose encoding, followed by the return
/// byte, currently heads the code; `tail` is whatever older bytes survive
/// beyond it after an alteration, unreachable past the return.
pub struct CodeBuffer {
    ops: Asm,
    len: usize,
    generation: u64,
    finished: bool,
    committed: bool,
    poisoned: bool,
    prog: Ghost<Seq<Instr>>,
    tail: Ghost<Seq<u8>>,
}

/// An entry point into a committed code buffer: an offset and the commit
/// generation it was acquired at. The handle is a weak reference — it does
/// not keep the buffer alive — and it is only as current as its generation.
#[derive(Clone, Copy, PartialEq, Eq, Structural, Debug)]
pub struct EntryHandle {
    offset: usize,
    generation: u64,
}

impl EntryHandle {
    /// The byte offset of the entry point in the committed code.
    pub fn offset(&self) -> (r: usize)
        ensures
            r == self.spec_offset(),
    {
        self.offset
    }

    pub closed spec fn spec_offset(self) -> usize {
        self.offset
    }

    pub closed spec fn spec_generation(self) -> u64 {
        self.generation
    }
}

impl CodeBuffer {
    /// The instruction sequence the buffer currently holds ahead of its
    /// return instruction.
    pub closed spec fn program(self) -> Seq<Instr> {
        self.prog@
    }

    /// The buffer's commit generation, advanced by every alteration.
    pub closed spec fn generation(self) -> u64 {
        self.generation
    }

    /// Whether the trailing return has been emitted.
    pub closed spec fn is_finished(self) -> bool {
        self.finished
    }

    /// Whether the code has been committed and not altered since.
    pub closed spec fn is_committed(self) -> bool {
        self.committed
    }

    /// Whether an underlying failure left the buffer unusable.
    pub closed spec fn is_poisoned(self) -> bool {
        self.poisoned
    }

    /// The length in bytes of the code the buffer holds.
    pub closed spec fn code_len(self) -> usize {
        self.len
    }

    /// The buffer's internal invariant: unless poisoned, the code is the
    /// encoding of the program, then (once finished) the return byte, then
    /// the unreachable tail; only supported instructions are ever recorded;
    /// and committed code is exactly the code.
    pub closed spec fn wf(self) -> bool {
        !self.poisoned ==> {
            &&& asm_code(self.ops) == enc_seq(self.prog@) + (if self.finished {
                seq![RET_BYTE]
            } else {
                Seq::<u8>::empty()
            }) + self.tail@
            &&& self.len == asm_code(self.ops).len()
            &&& (!self.finished ==> self.tail@ == Seq::<u8>::empty())
            &&& (self.committed ==> self.finished && asm_committed(self.ops) == asm_code(self.ops))
            &&& all_supported(self.prog@)
        }
    }

    /// Whether the buffer is in a usable, invariant-respecting state.
    pub open spec fn live(self) -> bool {
        self.wf() && !self.is_poisoned()
    }

    /// The accumulator content that executing the buffer's code from offset
    /// zero leaves behind, starting from `acc`: the program runs in order
    /// and the trailing return hands the accumulator back. Invoking a
    /// current entry handle of a committed buffer returns this value,
    /// reinterpreted at the handle's return width.
    pub open spec fn result_of(self, acc: int) -> int {
        run_instrs(self.program(), acc)
    }

    /// Creates an empty code buffer.
    pub fn new() -> (r: Result<CodeBuffer, JitError>)
        ensures
            match r {
                Ok(b) => b.live() && b.program() == Seq::<Instr>::empty() && !b.is_finished()
                    && !b.is_committed() && b.generation() == 0 && b.code_len() == 0
                    && b.spec_tail() == Seq::<u8>::empty(),
                Err(e) => e == JitError::Allocation,
            },
    {
        match asm_new() {
            Ok(a) => {
                let b = CodeBuffer {
                    ops: a,
                    len: 0,
                    generation: 0,
                    finished: false,
                    committed: false,
                    poisoned: false,
                    prog: Ghost(Seq::empty()),
                    tail: Ghost(Seq::empty()),
                };
                assert(enc_seq(Seq::<Instr>::empty()) =~= Seq::<u8>::empty());
                assert(asm_code(b.ops) =~= enc_seq(b.prog@) + Seq::<u8>::empty() + b.tail@);
                Ok(b)
            }
            Err(e) => Err(e),
        }
    }

    /// Appends raw bytes to the assembler, keeping `len` in step.
    fn push_bytes(&mut self, bytes: &Vec<u8>)
        requires
            old(self).live(),
            old(self).code_len() + bytes@.len() <= usize::MAX,
        ensures
            final(self).ops_code() == old(self).ops_code() + bytes@,
            final(self).ops_committed() == old(self).ops_committed(),
            final(self).code_len() == old(self).code_len() + bytes@.len(),
            final(self).generation() == old(self).generation(),
            final(self).is_finished() == old(self).is_finished(),
            final(self).is_committed() == old(self).is_committed(),
            !final(self).is_poisoned(),
            final(self).program() == old(self).program(),
            final(self).spec_tail() == old(self).spec_tail(),
    {
        let n = bytes.len();
        let mut k: usize = 0;
        while k < n
            invariant
                k <= n,
                n == bytes@.len(),
                self.ops_code() == old(self).ops_code() + bytes@.take(k as int),
                self.ops_committed() == old(self).ops_committed(),
                self.len == old(self).len + k,
                old(self).len + n <= usize::MAX,
                self.generation == old(self).generation,
                self.finished == old(self).finished,
                self.committed == old(self).committed,
                !self.poisoned,
                self.prog@ == old(self).prog@,
                self.tail@ == old(self).tail@,
            decreases n - k,
        {
            asm_push(&mut self.ops, bytes[k]);
            self.len = self.len + 1;
            proof {
                assert((old(self).ops_code() + bytes@.take(k as int)).push(bytes@[k as int])
                    =~= old(self).ops_code() + bytes@.take(k as int + 1));
            }
            k = k + 1;
        }
        proof {
            assert(bytes@.take(n as int) =~= bytes@);
        }
    }

    /// The raw code of the underlying assembler (internal accounting).
    pub closed spec fn ops_code(self) -> Seq<u8> {
        asm_code(self.ops)
    }

    /// The committed bytes of the underlying assembler (internal
    /// accounting).
    pub closed spec fn ops_committed(self) -> Seq<u8> {
        asm_committed(self.ops)
    }

    /// The unreachable bytes beyond the program's return (internal
    /// accounting).
    pub closed spec fn spec_tail(self) -> Seq<u8> {
        self.tail@
    }

    /// Emits the trailing return instruction, finishing the code for
    /// commitment.
    pub fn emit_ret(&mut self) -> (r: Result<(), JitError>)
        requires
            old(self).live(),
            !old(self).is_finished(),
        ensures
            r is Ok <==> old(self).code_len() < usize::MAX,
            match r {
                Ok(()) => final(self).live() && final(self).is_finished()
                    && !final(self).is_committed() && final(self).program() == old(self).program()
                    && final(self).generation() == old(self).generation()
                    && final(self).code_len() == old(self).code_len() + 1
                    && final(self).spec_tail() == old(self).spec_tail(),
                Err(e) => e == JitError::Allocation && *final(self) == *old(self),
            },
    {
        if self.len == usize::MAX {
            return Err(JitError::Allocation);
        }
        let one = vec![RET_BYTE];
        assert(one@ =~= seq![RET_BYTE]);
        self.push_bytes(&one);
        self.finished = true;
        proof {
            assert(asm_code(self.ops) =~= enc_seq(self.prog@) + seq![RET_BYTE] + self.tail@);
        }
        Ok(())
    }

    /// Transitions the code from writable to executable: after a commit the
    /// committed bytes are exactly the code, and entry points may be
    /// acquired. An `Internal` failure leaves the buffer poisoned.
    pub fn commit(&mut self) -> (r: Result<(), JitError>)
        requires
            old(self).live(),
            old(self).is_finished(),
        ensures
            match r {
                Ok(()) => final(self).live() && final(self).is_committed()
                    && final(self).is_finished() && final(self).program() == old(self).program()
                    && final(self).generation() == old(self).generation()
                    && final(self).code_len() == old(self).code_len()
                    && final(self).spec_tail() == old(self).spec_tail(),
                Err(e) => e == JitError::Internal && final(self).is_poisoned(),
            },
    {
        match asm_commit(&mut self.ops) {
            Ok(()) => {
                self.committed = true;
                Ok(())
            }
            Err(e) => {
                self.poisoned = true;
                Err(e)
            }
        }
    }

    /// Whether a replacement program, with its trailing return, fits inside
    /// the code region the buffer already holds.
    pub open spec fn alter_fits(self, cmds: Seq<Instr>) -> bool {
        enc_seq(cmds).len() + 1 <= self.code_len()
    }

    /// Decides executably whether `alter` would accept `cmds`.
    pub fn can_alter(&self, cmds: &Vec<Instr>) -> (r: bool)
        requires
            self.live(),
        ensures
            r == (all_supported(cmds@) && self.alter_fits(cmds@)),
    {
        let n = cmds.len();
        let mut k: usize = 0;
        while k < n
            invariant
                k <= n,
                n == cmds@.len(),
                forall|j: int| 0 <= j < k ==> supported(#[trigger] cmds@[j]),
            decreases n - k,
        {
            if !is_supported(&cmds[k]) {
                proof {
                    assert(!supported(cmds@[k as int]));
                }
                return false;
            }
            k = k + 1;
        }
        proof {
            lemma_enc_seq_len(cmds@);
        }
        let fits = self.len >= 1 && n <= (self.len - 1) / 7;
        proof {
            if self.len >= 1 {
                assert(n <= ((self.len - 1) / 7 as int) <==> 7 * n <= self.len - 1)
                    by (nonlinear_arith);
            }
        }
        fits
    }

    /// Overwrites the start of the committed code with the encoding of
    /// `cmds` followed by a return, leaving any older bytes beyond it
    /// unreachable, and advances the generation so that every previously
    /// acquired entry handle becomes stale. The buffer must be recommitted
    /// before a new entry point is acquired.
    pub fn alter(&mut self, cmds: &Vec<Instr>) -> (r: Result<(), JitError>)
        requires
            old(self).live(),
            old(self).is_committed(),
            old(self).generation() < u64::MAX,
        ensures
            !all_supported(cmds@) ==> r == Err::<(), JitError>(JitError::Unsupported)
                && *final(self) == *old(self),
            all_supported(cmds@) && !old(self).alter_fits(cmds@) ==> r == Err::<(), JitError>(
                JitError::Allocation,
            ) && *final(self) == *old(self),
            match r {
                Ok(()) => final(self).live() && final(self).is_finished()
                    && !final(self).is_committed() && final(self).program() == cmds@
                    && final(self).generation() == old(self).generation() + 1
                    && final(self).code_len() == old(self).code_len() && all_supported(cmds@)
                    && old(self).alter_fits(cmds@) && final(self).spec_tail() == (enc_seq(
                    old(self).program(),
                ) + seq![RET_BYTE] + old(self).spec_tail()).skip((enc_seq(cmds@).len() + 1) as int),
                Err(e) => (e == JitError::Unsupported && !all_supported(cmds@) && *final(self)
                    == *old(self)) || (e == JitError::Allocation && !old(self).alter_fits(cmds@)
                    && *final(self) == *old(self)) || (e == JitError::Internal
                    && final(self).is_poisoned()),
            },
    {
        let n = cmds.len();
        let mut k: usize = 0;
        while k < n
            invariant
                k <= n,
                n == cmds@.len(),
                forall|j: int| 0 <= j < k ==> supported(#[trigger] cmds@[j]),
            decreases n - k,
        {
            if !is_supported(&cmds[k]) {
                proof {
                    assert(!supported(cmds@[k as int]));
                }
                return Err(JitError::Unsupported);
            }
            k = k + 1;
        }
        proof {
            assert(all_supported(cmds@));
            lemma_enc_seq_len(cmds@);
        }
        if !(self.len >= 1 && n <= (self.len - 1) / 7) {
            proof {
                if self.len >= 1 {
                    assert(n <= ((self.len - 1) / 7 as int) <==> 7 * n <= self.len - 1)
                        by (nonlinear_arith);
                }
            }
            return Err(JitError::Allocation);
        }
        proof {
            assert(n <= ((self.len - 1) / 7 as int) <==> 7 * n <= self.len - 1)
                by (nonlinear_arith);
        }
        let mut bytes: Vec<u8> = Vec::new();
        let mut k: usize = 0;
        while k < n
            invariant
                k <= n,
                n == cmds@.len(),
                all_supported(cmds@),
                bytes@ == enc_seq(cmds@.take(k as int)),
                bytes@.len() == 7 * k,
            decreases n - k,
        {
            let mut enc = encode_instr(&cmds[k]);
            proof {
                lemma_enc_instr_len(cmds@[k as int]);
                lemma_enc_seq_snoc(cmds@.take(k as int), cmds@[k as int]);
                assert(cmds@.take(k as int).push(cmds@[k as int]) =~= cmds@.take(k as int + 1));
            }
            bytes.append(&mut enc);
            k = k + 1;
        }
        proof {
            assert(cmds@.take(n as int) =~= cmds@);
        }
        bytes.push(RET_BYTE);
        proof {
            assert(bytes@ =~= enc_seq(cmds@) + seq![RET_BYTE]);
        }
        let ghost old_code = asm_code(self.ops);
        match asm_overwrite_start(&mut self.ops, &bytes) {
            Ok(()) => {
                self.generation = self.generation + 1;
                self.committed = false;
                self.finished = true;
                self.prog = Ghost(cmds@);
                self.tail = Ghost(old_code.skip(bytes@.len() as int));
                proof {
                    assert(asm_code(self.ops) =~= enc_seq(self.prog@) + seq![RET_BYTE]
                        + self.tail@);
                }
                Ok(())
            }
            Err(e) => {
                self.poisoned = true;
                Err(e)
            }
        }
    }

    /// Acquires an entry point at the start of the committed code. Only a
    /// committed, healthy buffer hands one out, which is what makes
    /// "commit before acquiring" an ordering the type system enforces
    /// rather than a convention.
    pub fn entry(&self) -> (r: Option<EntryHandle>)
        ensures
            match r {
                Some(h) => self.is_committed() && !self.is_poisoned() && h.spec_offset() == 0
                    && h.spec_generation() == self.generation(),
                None => !(self.is_committed() && !self.is_poisoned()),
            },
    {
        if self.committed && !self.poisoned {
            Some(EntryHandle { offset: 0, generation: self.generation })
        } else {
            None
        }
    }

    /// The stale-handle check: a handle may be invoked only while the
    /// buffer is committed and still at the generation the handle was
    /// acquired at; after an alteration the check fails with `Stale`
    /// instead of letting changed bytes run behind an old handle.
    pub fn check_handle(&self, h: &EntryHandle) -> (r: Result<(), JitError>)
        ensures
            match r {
                Ok(()) => self.is_committed() && !self.is_poisoned() && h.spec_generation()
                    == self.generation(),
                Err(e) => e == JitError::Stale && !(self.is_committed() && !self.is_poisoned()
                    && h.spec_generation() == self.generation()),
            },
    {
        if self.committed && !self.poisoned && h.generation == self.generation {
            Ok(())
        } else {
            Err(JitError::Stale)
        }
    }

    /// The current generation, for callers that must respect `alter`'s
    /// machine-limit precondition on the generation counter.
    pub fn generation_value(&self) -> (r: u64)
        ensures
            r == self.generation(),
    {
        self.generation
    }

    /// A copy of the committed machine bytes: the program's encoding, the
    /// return byte, and whatever unreachable tail survives from before an
    /// alteration.
    pub fn committed_code(&self) -> (r: Vec<u8>)
        requires
            self.live(),
            self.is_committed(),
        ensures
            r@ == enc_seq(self.program()) + seq![RET_BYTE] + self.spec_tail(),
            r@.len() == self.code_len(),
    {
        asm_committed_bytes(&self.ops)
    }

    /// The underlying assembler, for the unverified runner to lock and
    /// execute from.
    pub fn assembler(&self) -> (r: &Asm)
        ensures
            asm_committed(*r) == self.ops_committed(),
    {
        &self.ops
    }
}

/// Encodes one instruction and appends its machine bytes to the buffer's
/// code. Only the supported register-destination, immediate-source shapes
/// are legal; anything else is refused as `Unsupported`, the
/// compiler-internal invariant violation the instruction selector never
/// produces.
pub fn instr_to_asm(i: &Instr, ops: &mut CodeBuffer) -> (r: Result<(), JitError>)
    requires
        old(ops).live(),
        !old(ops).is_finished(),
    ensures
        r is Ok <==> (supported(*i) && old(ops).code_len() + 7 <= usize::MAX),
        match r {
            Ok(()) => final(ops).live() && !final(ops).is_finished() && !final(ops).is_committed()
                && final(ops).program() == old(ops).program().push(*i) && final(ops).generation()
                == old(ops).generation() && final(ops).code_len() == old(ops).code_len() + 7
                && final(ops).spec_tail() == old(ops).spec_tail(),
            Err(e) => *final(ops) == *old(ops) && ((e == JitError::Unsupported && !supported(*i))
                || (e == JitError::Allocation && old(ops).code_len() + 7 > usize::MAX)),
        },
{
    if !is_supported(i) {
        return Err(JitError::Unsupported);
    }
    if ops.len > usize::MAX - 7 {
        return Err(JitError::Allocation);
    }
    let bytes = encode_instr(i);
    proof {
        lemma_enc_instr_len(*i);
    }
    ops.push_bytes(&bytes);
    proof {
        lemma_enc_seq_snoc(ops.prog@, *i);
    }
    let ghost oldprog = ops.prog@;
    ops.prog = Ghost(ops.prog@.push(*i));
    proof {
        assert(asm_code(ops.ops) =~= enc_seq(ops.prog@) + Seq::<u8>::empty() + ops.tail@);
        assert forall|j: int| 0 <= j < ops.prog@.len() implies supported(
            #[trigger] ops.prog@[j],
        ) by {
            if j < oldprog.len() {
                assert(ops.prog@[j] == oldprog[j]);
            }
        }
    }
    Ok(())
}

/// Appends the encodings of a whole sequence, in list order. Succeeds
/// exactly when every instruction is supported and the code stays within
/// the address space; on failure the buffer keeps the prefix emitted so
/// far, in order.
pub fn instrs_to_asm(cmds: &Vec<Instr>, ops: &mut CodeBuffer) -> (r: Result<(), JitError>)
    requires
        old(ops).live(),
        !old(ops).is_finished(),
    ensures
        final(ops).live() && !final(ops).is_finished() && !final(ops).is_committed(),
        final(ops).generation() == old(ops).generation(),
        final(ops).spec_tail() == old(ops).spec_tail(),
        r is Ok <==> (all_supported(cmds@) && old(ops).code_len() + 7 * cmds@.len()
            <= usize::MAX),
        r is Ok ==> final(ops).program() == old(ops).program() + cmds@ && final(ops).code_len()
            == old(ops).code_len() + 7 * cmds@.len(),
        match r {
            Ok(()) => true,
            Err(e) => (exists|j: int|
                0 <= j <= cmds@.len() && final(ops).program() == old(ops).program()
                    + cmds@.take(j)) && ((e == JitError::Unsupported && !all_supported(cmds@)) || (
            e == JitError::Allocation && old(ops).code_len() + 7 * cmds@.len() > usize::MAX)),
        },
{
    let n = cmds.len();
    let mut k: usize = 0;
    while k < n
        invariant
            k <= n,
            n == cmds@.len(),
            ops.live(),
            !ops.is_finished(),
            !ops.is_committed(),
            ops.generation() == old(ops).generation(),
            ops.spec_tail() == old(ops).spec_tail(),
            forall|j: int| 0 <= j < k ==> supported(#[trigger] cmds@[j]),
            ops.program() == old(ops).program() + cmds@.take(k as int),
            ops.code_len() == old(ops).code_len() + 7 * k,
        decreases n - k,
    {
        match instr_to_asm(&cmds[k], ops) {
            Ok(()) => {
                proof {
                    assert((old(ops).program() + cmds@.take(k as int)).push(cmds@[k as int])
                        =~= old(ops).program() + cmds@.take(k as int + 1));
                }
                k = k + 1;
            }
            Err(e) => {
                proof {
                    if e == JitError::Unsupported {
                        assert(!supported(cmds@[k as int]));
                        assert(!all_supported(cmds@));
                    } else {
                        assert(old(ops).code_len() + 7 * (k as int) + 7 > usize::MAX);
                        assert(7 * (k as int) + 7 <= 7 * cmds@.len()) by (nonlinear_arith)
                            requires k as int + 1 <= cmds@.len();
                    }
                    assert(ops.program() == old(ops).program() + cmds@.take(k as int));
                }
                return Err(e);
            }
        }
    }
    proof {
        assert(cmds@.take(n as int) =~= cmds@);
    }
    Ok(())
}

/// Creates a buffer holding the lowered program: appends every encoded
/// instruction and the trailing return, then commits, leaving the buffer
/// ready for an entry point to be acquired.
pub fn jit_program(cmds: &Vec<Instr>) -> (r: Result<CodeBuffer, JitError>)
    ensures
        match r {
            Ok(b) => b.live() && b.is_committed() && b.is_finished() && b.program() == cmds@
                && b.generation() == 0 && all_supported(cmds@) && b.code_len() == 7 * cmds@.len()
                + 1 && b.spec_tail() == Seq::<u8>::empty(),
            Err(e) => (e == JitError::Unsupported ==> !all_supported(cmds@)) && (e
                == JitError::Allocation || e == JitError::Unsupported || e == JitError::Internal),
        },
{
    let mut b = match CodeBuffer::new() {
        Ok(b) => b,
        Err(e) => {
            return Err(e);
        }
    };
    match instrs_to_asm(cmds, &mut b) {
        Ok(()) => {
            proof {
                assert(Seq::<Instr>::empty() + cmds@ =~= cmds@);
            }
        }
        Err(e) => {
            return Err(e);
        }
    }
    match b.emit_ret() {
        Ok(()) => {}
        Err(e) => {
            return Err(e);
        }
    }
    match b.commit() {
        Ok(()) => {}
        Err(e) => {
            return Err(e);
        }
    }
    Ok(b)
}

/// An alteration fully supersedes the prior code: once `alter` has
/// installed a single `Move` of `k` into the accumulator, the buffer
/// computes exactly `k` from any starting accumulator, independent of
/// whatever the buffer computed before.
pub proof fn lemma_alter_supersedes(b: CodeBuffer, k: i32, acc: int)
    requires
        b.program() == seq![Instr::IMov(Val::Reg(Reg::RAX), Val::Imm(k))],
    ensures
        b.result_of(acc) == k as int,
{
    crate::instr::lemma_run_single(Instr::IMov(Val::Reg(Reg::RAX), Val::Imm(k)), acc);
}

/// Machine-code execution agrees with the reference interpreter: a buffer
/// loaded with the lowering of an expression computes the expression's
/// value from any starting accumulator.
pub proof fn lemma_jit_matches_interp(b: CodeBuffer, e: crate::ast::Expr, acc: int)
    requires
        b.program() == crate::compile::compile_spec(e),
    ensures
        b.result_of(acc) == crate::ast::eval(e),
{
    crate::compile::lemma_compile_correct(e, acc);
}

} // verus!
