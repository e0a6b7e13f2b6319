//! Emitting instructions and object files: operands, the block and procedure
//! emitters, the output sink, and the object-file builder.
use vstd::prelude::*;

use crate::code::{
    decodes, le32, le64, lemma_decodes_append, lemma_decodes_push_inst, lemma_le_bytes_len,
    one_inst, push_u64_le,
};
use crate::errors::Error;
use crate::isa::{is_register_byte, opcode, Instruction, OperandType, Register, INST_ALT_MODE};
use crate::version::{version_digits, Version};

verus! {

/// A tagged operand: a register, an absolute address, or an immediate.
pub struct Operand {
    kind: OperandType,
    value: u64,
}

impl View for Operand {
    type V = (OperandType, u64);

    closed spec fn view(&self) -> (OperandType, u64) {
        (self.kind, self.value)
    }
}

/// A register operand holds a register byte.
pub open spec fn operand_ok(o: (OperandType, u64)) -> bool {
    o.0 == OperandType::Register ==> o.1 < 256 && is_register_byte(o.1 as u8)
}

impl Operand {
    #[verifier::type_invariant]
    pub open spec fn inv(self) -> bool {
        operand_ok(self@)
    }

    /// A register operand.
    pub fn reg(reg: Register) -> (r: Operand)
        ensures
            r@ == (OperandType::Register, reg@ as u64),
    {
        Operand { kind: OperandType::Register, value: reg.to_u64() }
    }

    /// An address operand.
    pub fn addr(addr: u64) -> (r: Operand)
        ensures
            r@ == (OperandType::Address, addr),
    {
        Operand { kind: OperandType::Address, value: addr }
    }

    /// An immediate operand.
    pub fn lit64(lit: u64) -> (r: Operand)
        ensures
            r@ == (OperandType::Lit64, lit),
    {
        Operand { kind: OperandType::Lit64, value: lit }
    }
}

/// The opcode byte of `i` with the alternate-mode bit set.
pub open spec fn alt_op(i: Instruction) -> u8 {
    (opcode(i) + 0x80) as u8
}

/// The bytes that a move from `src` to `dst` emits, or `None` where the
/// destination is an immediate.
pub open spec fn move_bytes(dst: (OperandType, u64), src: (OperandType, u64), size: Option<u64>) -> Option<
    Seq<u8>,
> {
    match (dst.0, src.0) {
        (OperandType::Register, OperandType::Register) => Some(
            seq![opcode(Instruction::Move), dst.1 as u8, src.1 as u8],
        ),
        (OperandType::Register, OperandType::Address) => Some(
            seq![opcode(Instruction::MoveAddr), dst.1 as u8] + le64(src.1),
        ),
        (OperandType::Register, OperandType::Lit64) => Some(
            if src.1 == 0 {
                seq![opcode(Instruction::Clear), dst.1 as u8]
            } else if src.1 == 1 {
                seq![opcode(Instruction::SetOne), dst.1 as u8]
            } else {
                seq![opcode(Instruction::MoveImm), dst.1 as u8] + le64(src.1)
            },
        ),
        (OperandType::Address, OperandType::Register) => Some(
            seq![alt_op(Instruction::Move)] + le64(dst.1) + seq![src.1 as u8],
        ),
        (OperandType::Address, OperandType::Address) => Some(
            seq![alt_op(Instruction::MoveAddr)] + le64(dst.1) + le64(src.1) + le64(
                match size {
                    Some(n) => n,
                    None => 8u64,
                },
            ),
        ),
        (OperandType::Address, OperandType::Lit64) => Some(
            if src.1 == 0 {
                seq![alt_op(Instruction::Clear)] + le64(dst.1)
            } else if src.1 == 1 {
                seq![alt_op(Instruction::SetOne)] + le64(dst.1)
            } else {
                seq![alt_op(Instruction::MoveImm)] + le64(dst.1) + le64(src.1)
            },
        ),
        _ => None,
    }
}

/// The bytes that pushing `v` emits.
pub open spec fn push_bytes(v: (OperandType, u64)) -> Seq<u8> {
    match v.0 {
        OperandType::Register => seq![opcode(Instruction::Push), v.1 as u8],
        OperandType::Address => seq![alt_op(Instruction::Push)] + le64(v.1),
        OperandType::Lit64 => seq![opcode(Instruction::PushImm)] + le64(v.1),
    }
}

/// The syscall opcode for `nargs` arguments, where there is one.
pub open spec fn syscall_op(nargs: u8) -> Option<Instruction> {
    if nargs == 0 {
        Some(Instruction::Syscall0)
    } else if nargs == 1 {
        Some(Instruction::Syscall1)
    } else if nargs == 2 {
        Some(Instruction::Syscall2)
    } else if nargs == 3 {
        Some(Instruction::Syscall3)
    } else if nargs == 4 {
        Some(Instruction::Syscall4)
    } else if nargs == 5 {
        Some(Instruction::Syscall5)
    } else if nargs == 6 {
        Some(Instruction::Syscall6)
    } else {
        None
    }
}

/// Whether `s` is well-formed code whose last instruction is `Ret`.
pub open spec fn ret_terminated(s: Seq<u8>) -> bool {
    s.len() > 0 && s.last() == opcode(Instruction::Ret) && decodes(s.drop_last())
}

/// Emits the instructions of one block into a buffer of its own.
pub struct BlockBuilder {
    out: Vec<u8>,
    ends_with_ret: bool,
}

impl View for BlockBuilder {
    type V = Seq<u8>;

    closed spec fn view(&self) -> Seq<u8> {
        self.out@
    }
}

/// Emitting `e` after `a`, both well-formed, leaves well-formed code.
proof fn lemma_emit(a: Seq<u8>, e: Seq<u8>)
    requires
        decodes(a),
        one_inst(e),
    ensures
        decodes(a + e),
        e.len() > 0,
{
    lemma_decodes_push_inst(a, e);
}

impl BlockBuilder {
    /// The emitted bytes are well-formed code, and end in `Ret` when the
    /// last instruction emitted was one.
    #[verifier::type_invariant]
    closed spec fn inv(self) -> bool {
        &&& decodes(self.out@)
        &&& self.ends_with_ret ==> ret_terminated(self.out@)
    }

    /// Whether the last instruction emitted was `Ret`.
    pub closed spec fn last_is_ret(self) -> bool {
        self.ends_with_ret
    }

    /// An empty block.
    pub fn new() -> (r: BlockBuilder)
        ensures
            r@ == Seq::<u8>::empty(),
            !r.last_is_ret(),
    {
        BlockBuilder { out: Vec::new(), ends_with_ret: false }
    }

    /// The emitted bytes are well-formed code; where the last instruction
    /// was `Ret`, they end in it.
    pub fn code(&self) -> (r: &Vec<u8>)
        ensures
            r@ == self@,
            decodes(self@),
            self.last_is_ret() ==> ret_terminated(self@),
    {
        proof {
            use_type_invariant(self);
        }
        &self.out
    }

    /// Appends one instruction.
    fn emit(&mut self, e: &Vec<u8>, is_ret: bool)
        requires
            one_inst(e@),
            is_ret ==> e@ == seq![opcode(Instruction::Ret)],
        ensures
            final(self)@ == old(self)@ + e@,
            final(self).last_is_ret() == is_ret,
    {
        proof {
            use_type_invariant(&*self);
            lemma_emit(self.out@, e@);
        }
        let ghost before = self.out@;
        let mut i: usize = 0;
        self.ends_with_ret = false;
        let mut out: Vec<u8> = Vec::new();
        std::mem::swap(&mut out, &mut self.out);
        while i < e.len()
            invariant
                i <= e@.len(),
                out@ == before + e@.subrange(0, i as int),
            decreases e@.len() - i,
        {
            out.push(e[i]);
            i += 1;
            assert(out@ =~= before + e@.subrange(0, i as int));
        }
        assert(e@.subrange(0, i as int) =~= e@);
        proof {
            if is_ret {
                assert((before + e@).drop_last() =~= before);
            }
        }
        self.out = out;
        self.ends_with_ret = is_ret;
    }

    /// Emits a move from `src` to `dst`, specialised for the immediates 0 and
    /// 1; fails where `dst` is an immediate.
    #[verifier::rlimit(60)]
    pub fn emit_move(&mut self, dst: Operand, src: Operand, size: Option<u64>) -> (r: Result<
        (),
        Error,
    >)
        ensures
            match move_bytes(dst@, src@, size) {
                Some(e) => r is Ok && final(self)@ == old(self)@ + e && !final(self).last_is_ret(),
                None => r == Err::<(), Error>(Error::BadOperandType) && final(self)@ == old(self)@
                    && final(self).last_is_ret() == old(self).last_is_ret(),
            },
    {
        proof {
            use_type_invariant(&dst);
            use_type_invariant(&src);
            lemma_le_bytes_len(dst@.1 as nat, 8);
            lemma_le_bytes_len(src@.1 as nat, 8);
        }
        let mut e: Vec<u8> = Vec::new();
        match dst.kind {
            OperandType::Register => match src.kind {
                OperandType::Register => {
                    e.push(Instruction::Move.to_u8());
                    e.push(dst.value as u8);
                    e.push(src.value as u8);
                },
                OperandType::Address => {
                    e.push(Instruction::MoveAddr.to_u8());
                    e.push(dst.value as u8);
                    push_u64_le(&mut e, src.value);
                },
                OperandType::Lit64 => {
                    if src.value == 0 {
                        e.push(Instruction::Clear.to_u8());
                        e.push(dst.value as u8);
                    } else if src.value == 1 {
                        e.push(Instruction::SetOne.to_u8());
                        e.push(dst.value as u8);
                    } else {
                        e.push(Instruction::MoveImm.to_u8());
                        e.push(dst.value as u8);
                        push_u64_le(&mut e, src.value);
                    }
                },
            },
            OperandType::Address => match src.kind {
                OperandType::Register => {
                    e.push(Instruction::Move.to_u8() | INST_ALT_MODE);
                    push_u64_le(&mut e, dst.value);
                    e.push(src.value as u8);
                },
                OperandType::Address => {
                    e.push(Instruction::MoveAddr.to_u8() | INST_ALT_MODE);
                    push_u64_le(&mut e, dst.value);
                    push_u64_le(&mut e, src.value);
                    let n: u64 = match size {
                        Some(n) => n,
                        None => 8,
                    };
                    proof {
                        lemma_le_bytes_len(n as nat, 8);
                    }
                    push_u64_le(&mut e, n);
                },
                OperandType::Lit64 => {
                    if src.value == 0 {
                        e.push(Instruction::Clear.to_u8() | INST_ALT_MODE);
                        push_u64_le(&mut e, dst.value);
                    } else if src.value == 1 {
                        e.push(Instruction::SetOne.to_u8() | INST_ALT_MODE);
                        push_u64_le(&mut e, dst.value);
                    } else {
                        e.push(Instruction::MoveImm.to_u8() | INST_ALT_MODE);
                        push_u64_le(&mut e, dst.value);
                        push_u64_le(&mut e, src.value);
                    }
                },
            },
            OperandType::Lit64 => {
                return Err(Error::BadOperandType);
            },
        }
        proof {
            assert(opcode(Instruction::Move) | 0x80u8 == alt_op(Instruction::Move)) by (bit_vector);
            assert(opcode(Instruction::MoveAddr) | 0x80u8 == alt_op(Instruction::MoveAddr))
                by (bit_vector);
            assert(opcode(Instruction::MoveImm) | 0x80u8 == alt_op(Instruction::MoveImm))
                by (bit_vector);
            assert(opcode(Instruction::Clear) | 0x80u8 == alt_op(Instruction::Clear))
                by (bit_vector);
            assert(opcode(Instruction::SetOne) | 0x80u8 == alt_op(Instruction::SetOne))
                by (bit_vector);
            assert(e@ =~= move_bytes(dst@, src@, size)->Some_0);
        }
        self.emit(&e, false);
        Ok(())
    }

    /// Emits `Clear reg`.
    pub fn emit_clear(&mut self, reg: Register)
        ensures
            final(self)@ == old(self)@ + seq![opcode(Instruction::Clear), reg@],
            !final(self).last_is_ret(),
    {
        let e = vec![Instruction::Clear.to_u8(), reg.to_u8()];
        assert(e@ =~= seq![opcode(Instruction::Clear), reg@]);
        self.emit(&e, false);
    }

    /// Emits `Set reg`.
    pub fn emit_set(&mut self, reg: Register)
        ensures
            final(self)@ == old(self)@ + seq![opcode(Instruction::SetOne), reg@],
            !final(self).last_is_ret(),
    {
        let e = vec![Instruction::SetOne.to_u8(), reg.to_u8()];
        assert(e@ =~= seq![opcode(Instruction::SetOne), reg@]);
        self.emit(&e, false);
    }

    /// Emits a push of `value`.
    pub fn emit_push(&mut self, value: Operand)
        ensures
            final(self)@ == old(self)@ + push_bytes(value@),
            !final(self).last_is_ret(),
    {
        proof {
            use_type_invariant(&value);
            lemma_le_bytes_len(value@.1 as nat, 8);
        }
        let mut e: Vec<u8> = Vec::new();
        match value.kind {
            OperandType::Register => {
                e.push(Instruction::Push.to_u8());
                e.push(value.value as u8);
            },
            OperandType::Address => {
                e.push(Instruction::Push.to_u8() | INST_ALT_MODE);
                push_u64_le(&mut e, value.value);
            },
            OperandType::Lit64 => {
                e.push(Instruction::PushImm.to_u8());
                push_u64_le(&mut e, value.value);
            },
        }
        proof {
            assert(opcode(Instruction::Push) | 0x80u8 == alt_op(Instruction::Push)) by (bit_vector);
            assert(e@ =~= push_bytes(value@));
        }
        self.emit(&e, false);
    }

    /// Emits `Pop reg`.
    pub fn emit_pop(&mut self, reg: Register)
        ensures
            final(self)@ == old(self)@ + seq![opcode(Instruction::Pop), reg@],
            !final(self).last_is_ret(),
    {
        let e = vec![Instruction::Pop.to_u8(), reg.to_u8()];
        assert(e@ =~= seq![opcode(Instruction::Pop), reg@]);
        self.emit(&e, false);
    }

    /// Emits a load into `reg` of the stack slot `offset` bytes above the
    /// procedure's stack base.
    pub fn emit_stack_load(&mut self, reg: Register, offset: u64)
        ensures
            final(self)@ == old(self)@ + seq![opcode(Instruction::StackLoad), reg@] + le64(offset),
            !final(self).last_is_ret(),
    {
        let mut e = vec![Instruction::StackLoad.to_u8(), reg.to_u8()];
        push_u64_le(&mut e, offset);
        proof {
            lemma_le_bytes_len(offset as nat, 8);
        }
        assert(e@ =~= seq![opcode(Instruction::StackLoad), reg@] + le64(offset));
        self.emit(&e, false);
    }

    /// Emits a load into `reg` of the address of the string at `index` in the
    /// string table.
    pub fn emit_map(&mut self, reg: Register, index: u64) -> (r: Result<(), Error>)
        ensures
            r is Ok,
            final(self)@ == old(self)@ + seq![opcode(Instruction::MapString), reg@] + le64(index),
            !final(self).last_is_ret(),
    {
        let mut e = vec![Instruction::MapString.to_u8(), reg.to_u8()];
        push_u64_le(&mut e, index);
        proof {
            lemma_le_bytes_len(index as nat, 8);
        }
        assert(e@ =~= seq![opcode(Instruction::MapString), reg@] + le64(index));
        self.emit(&e, false);
        Ok(())
    }

    /// Emits the syscall opcode for `nargs` arguments; fails above six.
    pub fn emit_syscall(&mut self, nargs: u8) -> (r: Result<(), Error>)
        ensures
            match syscall_op(nargs) {
                Some(i) => r is Ok && final(self)@ == old(self)@ + seq![opcode(i)]
                    && !final(self).last_is_ret(),
                None => r == Err::<(), Error>(Error::TooManyArgsForSyscall) && final(self)@ == old(
                    self,
                )@ && final(self).last_is_ret() == old(self).last_is_ret(),
            },
    {
        let i = if nargs == 0 {
            Instruction::Syscall0
        } else if nargs == 1 {
            Instruction::Syscall1
        } else if nargs == 2 {
            Instruction::Syscall2
        } else if nargs == 3 {
            Instruction::Syscall3
        } else if nargs == 4 {
            Instruction::Syscall4
        } else if nargs == 5 {
            Instruction::Syscall5
        } else if nargs == 6 {
            Instruction::Syscall6
        } else {
            return Err(Error::TooManyArgsForSyscall);
        };
        let e = vec![i.to_u8()];
        assert(e@ =~= seq![opcode(i)]);
        self.emit(&e, false);
        Ok(())
    }

    /// Emits `Ret`.
    pub fn emit_ret(&mut self)
        ensures
            final(self)@ == old(self)@ + seq![opcode(Instruction::Ret)],
            final(self).last_is_ret(),
    {
        let e = vec![Instruction::Ret.to_u8()];
        assert(e@ =~= seq![opcode(Instruction::Ret)]);
        self.emit(&e, true);
    }
}

/// Emits the blocks of one procedure into a buffer of its own.
pub struct ProcedureBuilder {
    code: Vec<u8>,
}

impl View for ProcedureBuilder {
    type V = Seq<u8>;

    closed spec fn view(&self) -> Seq<u8> {
        self.code@
    }
}

impl ProcedureBuilder {
    /// The emitted bytes are well-formed code ending in `Ret`, or nothing.
    #[verifier::type_invariant]
    closed spec fn inv(self) -> bool {
        &&& decodes(self.code@)
        &&& self.code@.len() > 0 ==> ret_terminated(self.code@)
    }

    /// An empty procedure.
    pub fn new() -> (r: ProcedureBuilder)
        ensures
            r@ == Seq::<u8>::empty(),
    {
        ProcedureBuilder { code: Vec::new() }
    }

    /// The emitted bytes: well-formed code ending in `Ret`, or nothing.
    pub fn code(&self) -> (r: &Vec<u8>)
        ensures
            r@ == self@,
            decodes(self@),
            self@.len() > 0 ==> ret_terminated(self@),
    {
        proof {
            use_type_invariant(self);
        }
        &self.code
    }

    /// Runs `f` on a fresh block, then appends the block, followed by `Ret`
    /// unless its last instruction already was one.
    pub fn body<F: FnOnce(&mut BlockBuilder)>(&mut self, f: F)
        requires
            forall|b: &mut BlockBuilder| f.requires((b,)),
        ensures
            final(self)@.len() > old(self)@.len(),
            final(self)@.subrange(0, old(self)@.len() as int) == old(self)@,
            ret_terminated(final(self)@.skip(old(self)@.len() as int)),
            exists|m: &mut BlockBuilder|
                (*m)@ == Seq::<u8>::empty() && f.ensures((m,), ()) && ((*final(m)).last_is_ret()
                    ==> final(self)@ == old(self)@ + (*final(m))@) && (!(*final(m)).last_is_ret()
                    ==> final(self)@ == old(self)@ + (*final(m))@ + seq![opcode(Instruction::Ret)]),
    {
        let mut block = BlockBuilder::new();
        f(&mut block);
        self.append_block(block);
    }

    /// Appends `block`, followed by `Ret` unless its last instruction already
    /// was one.
    pub fn append_block(&mut self, block: BlockBuilder)
        ensures
            final(self)@.len() > old(self)@.len(),
            final(self)@.subrange(0, old(self)@.len() as int) == old(self)@,
            ret_terminated(final(self)@.skip(old(self)@.len() as int)),
            block.last_is_ret() ==> final(self)@ == old(self)@ + block@,
            !block.last_is_ret() ==> final(self)@ == old(self)@ + block@ + seq![
                opcode(Instruction::Ret),
            ],
    {
        proof {
            use_type_invariant(&*self);
        }
        let mut block = block;
        if !block.ends_with_ret {
            block.emit_ret();
        }
        let blk = block.code();
        let ghost before = self.code@;
        let ghost b = blk@;
        proof {
            assert(ret_terminated(b));
            lemma_decodes_append(before, b.drop_last());
            assert((before + b).drop_last() =~= before + b.drop_last());
            lemma_decodes_push_inst(before + b.drop_last(), seq![b.last()]);
            assert(before + b.drop_last() + seq![b.last()] =~= before + b);
        }
        let mut code: Vec<u8> = Vec::new();
        std::mem::swap(&mut code, &mut self.code);
        let mut i: usize = 0;
        while i < blk.len()
            invariant
                i <= b.len(),
                blk@ == b,
                code@ == before + b.subrange(0, i as int),
            decreases b.len() - i,
        {
            code.push(blk[i]);
            i += 1;
            assert(code@ =~= before + b.subrange(0, i as int));
        }
        assert(b.subrange(0, i as int) =~= b);
        assert(code@.skip(before.len() as int) =~= b);
        assert(code@.subrange(0, before.len() as int) =~= before);
        self.code = code;
    }
}

/// The kind of object a file holds.
#[derive(Clone, Copy, Debug, PartialEq, Eq, Structural)]
pub enum OutputType {
    Bin,
    Lib,
}

/// The number that stands for each output type in a file.
pub open spec fn output_type_code(t: OutputType) -> u32 {
    match t {
        OutputType::Bin => 0,
        OutputType::Lib => 1,
    }
}

impl OutputType {
    /// The four little-endian bytes of this output type's number.
    pub fn as_bytes(self) -> (r: [u8; 4])
        ensures
            r@ == le32(output_type_code(self)),
    {
        proof {
            reveal_with_fuel(crate::code::le_bytes, 5);
        }
        let r = match self {
            OutputType::Bin => [0u8, 0, 0, 0],
            OutputType::Lib => [1u8, 0, 0, 0],
        };
        assert(r@ =~= le32(output_type_code(self)));
        r
    }

    /// The output type numbered `value`; fails on any number but 0 and 1.
    pub fn try_from(value: u32) -> (r: Result<OutputType, Error>)
        ensures
            value == 0 ==> r == Ok::<OutputType, Error>(OutputType::Bin),
            value == 1 ==> r == Ok::<OutputType, Error>(OutputType::Lib),
            value > 1 ==> r == Err::<OutputType, Error>(Error::InvalidOutputType),
    {
        if value == 0 {
            Ok(OutputType::Bin)
        } else if value == 1 {
            Ok(OutputType::Lib)
        } else {
            Err(Error::InvalidOutputType)
        }
    }
}

/// A sink for bytes.
pub trait Write {
    /// The bytes written so far.
    spec fn written(&self) -> Seq<u8>;

    /// Writes all of `bytes`, or fails with `WriteError`.
    fn write_bytes(&mut self, bytes: &[u8]) -> (r: Result<usize, Error>)
        ensures
            r is Ok ==> final(self).written() == old(self).written() + bytes@ && r->Ok_0
                == bytes@.len(),
            r is Err ==> r->Err_0 == Error::WriteError,
    ;
}

impl Write for Vec<u8> {
    open spec fn written(&self) -> Seq<u8> {
        self@
    }

    /// Appends `bytes`; never fails.
    fn write_bytes(&mut self, bytes: &[u8]) -> (r: Result<usize, Error>)
        ensures
            r is Ok,
    {
        crate::text::append_bytes(self, bytes);
        Ok(bytes.len())
    }
}

/// Writes `bytes` to `f`.
fn put<W: Write>(f: &mut W, bytes: &[u8]) -> (r: Result<(), Error>)
    ensures
        r is Ok ==> final(f).written() == old(f).written() + bytes@,
        r is Err ==> r->Err_0 == Error::WriteError,
{
    match f.write_bytes(bytes) {
        Ok(_) => Ok(()),
        Err(e) => Err(e),
    }
}

/// `n` zero bytes.
pub open spec fn zeros(n: nat) -> Seq<u8> {
    Seq::new(n, |_i: int| 0u8)
}

/// The magic `DREAM` followed by the version digits.
pub open spec fn magic_bytes(version: nat) -> Seq<u8> {
    seq![68u8, 82, 69, 65, 77] + version_digits(version)
}

/// The file header: magic, version, `OUTT` and the output type.
pub open spec fn header_bytes(version: nat, ot: OutputType) -> Seq<u8> {
    magic_bytes(version) + seq![79u8, 85, 84, 84] + le32(output_type_code(ot))
}

/// The bytes one string table entry takes: length, data, padding.
pub open spec fn entry_size(s: Seq<u8>) -> nat {
    16 + s.len()
}

/// The payload size of a string table.
pub open spec fn text_size(strings: Seq<Seq<u8>>) -> nat
    decreases strings.len(),
{
    if strings.len() == 0 {
        0
    } else {
        text_size(strings.drop_last()) + entry_size(strings.last())
    }
}

/// The entries of a string table, in order.
pub open spec fn text_entries(strings: Seq<Seq<u8>>) -> Seq<u8>
    decreases strings.len(),
{
    if strings.len() == 0 {
        Seq::empty()
    } else {
        text_entries(strings.drop_last()) + le64(strings.last().len() as u64) + strings.last()
            + zeros(8)
    }
}

/// The TEXT section of a string table.
pub open spec fn text_section_bytes(strings: Seq<Seq<u8>>) -> Seq<u8> {
    seq![84u8, 69, 88, 84] + zeros(4) + le64(text_size(strings) as u64) + text_entries(strings)
}

/// The CODE section of a code buffer with an entry offset.
pub open spec fn code_section_bytes(code: Seq<u8>, entry: nat) -> Seq<u8> {
    seq![67u8, 79, 68, 69] + zeros(4) + le64(code.len() as u64) + le64(entry as u64) + code
}

/// A whole object file.
pub open spec fn dream_bytes(
    version: nat,
    ot: OutputType,
    strings: Seq<Seq<u8>>,
    code: Seq<u8>,
    entry: nat,
) -> Seq<u8> {
    header_bytes(version, ot) + text_section_bytes(strings) + code_section_bytes(code, entry)
}

/// Whether no two strings of the table are equal.
pub open spec fn distinct(strings: Seq<Seq<u8>>) -> bool {
    forall|i: int, j: int| 0 <= i < j < strings.len() ==> strings[i] != strings[j]
}

/// The offset of entry `i` of a string table: eight, then the entries before.
pub open spec fn string_offset(strings: Seq<Seq<u8>>, i: int) -> nat {
    8 + text_size(strings.take(i))
}

/// The table and offset after adding `s`: the offset of an equal string if
/// one is there, else `s` goes at the end.
pub open spec fn add_string_spec(strings: Seq<Seq<u8>>, s: Seq<u8>) -> (Seq<Seq<u8>>, nat) {
    if exists|i: int| 0 <= i < strings.len() && strings[i] == s {
        let i = choose|i: int| 0 <= i < strings.len() && strings[i] == s;
        (strings, string_offset(strings, i))
    } else {
        (strings.push(s), string_offset(strings, strings.len() as int))
    }
}

/// The table payload grows with every entry.
pub proof fn lemma_text_size_prefix(strings: Seq<Seq<u8>>, i: int, j: int)
    requires
        0 <= i < j <= strings.len(),
    ensures
        text_size(strings.take(i)) < text_size(strings.take(j)),
    decreases j - i,
{
    assert(strings.take(j).drop_last() =~= strings.take(j - 1));
    if i < j - 1 {
        lemma_text_size_prefix(strings, i, j - 1);
    }
}

/// No prefix of a table is larger than the table.
pub proof fn lemma_text_size_take(strings: Seq<Seq<u8>>, i: int)
    requires
        0 <= i <= strings.len(),
    ensures
        text_size(strings.take(i)) <= text_size(strings),
{
    assert(strings.take(strings.len() as int) =~= strings);
    if i < strings.len() {
        lemma_text_size_prefix(strings, i, strings.len() as int);
    }
}

/// Adding a string that is already in the table returns the same offset
/// again and leaves the table as it is.
pub proof fn lemma_add_string_repeat(strings: Seq<Seq<u8>>, s: Seq<u8>)
    requires
        distinct(strings),
    ensures
        add_string_spec(add_string_spec(strings, s).0, s) == add_string_spec(strings, s),
{
    let (t1, o1) = add_string_spec(strings, s);
    if exists|i: int| 0 <= i < strings.len() && strings[i] == s {
    } else {
        let n = strings.len() as int;
        assert(t1[n] == s);
        let k = choose|i: int| 0 <= i < t1.len() && t1[i] == s;
        if k < n {
            assert(strings[k] == s);
        }
        assert(k == n);
        assert(t1.take(n) =~= strings);
        assert(strings.take(n) =~= strings);
    }
}

/// Two different strings added one after the other get different offsets.
pub proof fn lemma_add_string_distinct(strings: Seq<Seq<u8>>, s1: Seq<u8>, s2: Seq<u8>)
    requires
        distinct(strings),
        s1 != s2,
    ensures
        add_string_spec(strings, s1).1 != add_string_spec(add_string_spec(strings, s1).0, s2).1,
{
    let (t1, o1) = add_string_spec(strings, s1);
    let (t2, o2) = add_string_spec(t1, s2);
    let i1 = if exists|i: int| 0 <= i < strings.len() && strings[i] == s1 {
        choose|i: int| 0 <= i < strings.len() && strings[i] == s1
    } else {
        strings.len() as int
    };
    assert(0 <= i1 < t1.len() && t1[i1] == s1);
    assert(o1 == string_offset(t1, i1)) by {
        if i1 == strings.len() {
            assert(t1.take(i1) =~= strings.take(i1));
        }
    }
    let i2 = if exists|i: int| 0 <= i < t1.len() && t1[i] == s2 {
        choose|i: int| 0 <= i < t1.len() && t1[i] == s2
    } else {
        t1.len() as int
    };
    assert(0 <= i2 < t2.len() && t2[i2] == s2);
    assert(t2.take(i1) =~= t1.take(i1));
    assert(o2 == string_offset(t2, i2)) by {
        if i2 == t1.len() {
            assert(t2.take(i2) =~= t1.take(i2));
        }
    }
    assert(i1 != i2);
    if i1 < i2 {
        lemma_text_size_prefix(t2, i1, i2);
    } else {
        lemma_text_size_prefix(t2, i2, i1);
    }
}

/// An offset handed out for `s` stays the offset of `s` however the table
/// grew since: adding `s` again returns it and leaves the table as it is, and
/// adding any other string returns a different offset.
pub proof fn lemma_add_string_stable(t1: Seq<Seq<u8>>, t2: Seq<Seq<u8>>, s: Seq<u8>, s2: Seq<u8>)
    requires
        distinct(t2),
        t1.len() <= t2.len(),
        t2.take(t1.len() as int) == t1,
        exists|i: int| 0 <= i < t1.len() && t1[i] == s,
    ensures
        add_string_spec(t2, s) == (t2, add_string_spec(t1, s).1),
        s2 != s ==> add_string_spec(t2, s2).1 != add_string_spec(t1, s).1,
{
    let i = choose|i: int| 0 <= i < t1.len() && t1[i] == s;
    assert(t2[i] == t1[i]) by {
        assert(t2.take(t1.len() as int)[i] == t2[i]);
    }
    let k = choose|k: int| 0 <= k < t2.len() && t2[k] == s;
    assert(k == i);
    let k1 = choose|k: int| 0 <= k < t1.len() && t1[k] == s;
    assert(t1[k1] == t2[k1]) by {
        assert(t2.take(t1.len() as int)[k1] == t2[k1]);
    }
    assert(k1 == i);
    assert(t2.take(i) =~= t1.take(i)) by {
        assert forall|j: int| 0 <= j < i implies t2.take(i)[j] == t1.take(i)[j] by {
            assert(t2.take(t1.len() as int)[j] == t2[j]);
        }
    }
    if s2 != s {
        let j = if exists|j: int| 0 <= j < t2.len() && t2[j] == s2 {
            choose|j: int| 0 <= j < t2.len() && t2[j] == s2
        } else {
            t2.len() as int
        };
        let t3 = add_string_spec(t2, s2).0;
        assert(0 <= j < t3.len() && t3[j] == s2);
        assert(add_string_spec(t2, s2).1 == string_offset(t3, j)) by {
            if j == t2.len() {
                assert(t3.take(j) =~= t2.take(j));
            }
        }
        assert(t3.take(i) =~= t2.take(i));
        assert(t3[i] == s);
        assert(i != j);
        if i < j {
            lemma_text_size_prefix(t3, i, j);
        } else {
            lemma_text_size_prefix(t3, j, i);
        }
    }
}

/// Whether two byte strings are equal.
fn bytes_eq(a: &[u8], b: &[u8]) -> (r: bool)
    ensures
        r == (a@ == b@),
{
    if a.len() != b.len() {
        return false;
    }
    let mut i: usize = 0;
    while i < a.len()
        invariant
            a@.len() == b@.len(),
            i <= a@.len(),
            forall|k: int| 0 <= k < i ==> a@[k] == b@[k],
        decreases a@.len() - i,
    {
        if a[i] != b[i] {
            return false;
        }
        i += 1;
    }
    assert(a@ =~= b@);
    true
}

/// Builds an object file: a string table, code, and an entry point.
pub struct Builder {
    version: Version,
    output_type: OutputType,
    entry_point: usize,
    strings: Vec<Vec<u8>>,
    code: Vec<u8>,
}

impl Builder {
    /// The code is well-formed, no string is stored twice, and every offset
    /// fits in a machine word.
    #[verifier::type_invariant]
    closed spec fn inv(self) -> bool {
        &&& decodes(self.code@)
        &&& distinct(self.strings_spec())
        &&& 16 + text_size(self.strings_spec()) <= usize::MAX
    }

    /// The version number written in the header.
    pub closed spec fn version_spec(&self) -> nat {
        self.version@
    }

    /// The output type written in the header.
    pub closed spec fn output_type_spec(&self) -> OutputType {
        self.output_type
    }

    /// The entry offset into the code.
    pub closed spec fn entry_spec(&self) -> nat {
        self.entry_point as nat
    }

    /// The string table, in order of addition.
    pub closed spec fn strings_spec(&self) -> Seq<Seq<u8>> {
        Seq::new(self.strings@.len(), |i: int| self.strings@[i]@)
    }

    /// The code emitted so far.
    pub closed spec fn code_spec(&self) -> Seq<u8> {
        self.code@
    }

    /// The file that `write_dream` writes.
    pub open spec fn file_spec(&self) -> Seq<u8> {
        dream_bytes(
            self.version_spec(),
            self.output_type_spec(),
            self.strings_spec(),
            self.code_spec(),
            self.entry_spec(),
        )
    }

    /// An empty builder: no strings, no code, entry at offset 0.
    pub fn new(version: Version, output: OutputType) -> (r: Builder)
        ensures
            r.version_spec() == version@,
            r.output_type_spec() == output,
            r.entry_spec() == 0,
            r.strings_spec() == Seq::<Seq<u8>>::empty(),
            r.code_spec() == Seq::<u8>::empty(),
    {
        let r = Builder {
            version,
            output_type: output,
            entry_point: 0,
            strings: Vec::new(),
            code: Vec::new(),
        };
        assert(r.strings_spec() =~= Seq::<Seq<u8>>::empty());
        r
    }

    /// Records the entry offset; it is not checked against the code.
    pub fn set_entry(&mut self, entry: usize)
        ensures
            final(self).entry_spec() == entry,
            final(self).version_spec() == old(self).version_spec(),
            final(self).output_type_spec() == old(self).output_type_spec(),
            final(self).strings_spec() == old(self).strings_spec(),
            final(self).code_spec() == old(self).code_spec(),
    {
        proof {
            use_type_invariant(&*self);
        }
        self.entry_point = entry;
    }

    /// Adds a string to the table unless an equal one is there; returns the
    /// offset of its entry.
    pub fn add_string(&mut self, new: &[u8]) -> (r: usize)
        requires
            16 + text_size(old(self).strings_spec()) + entry_size(new@) <= usize::MAX,
        ensures
            (final(self).strings_spec(), r as nat) == add_string_spec(old(self).strings_spec(), new@),
            distinct(old(self).strings_spec()),
            distinct(final(self).strings_spec()),
            final(self).entry_spec() == old(self).entry_spec(),
            final(self).version_spec() == old(self).version_spec(),
            final(self).output_type_spec() == old(self).output_type_spec(),
            final(self).code_spec() == old(self).code_spec(),
    {
        proof {
            use_type_invariant(&*self);
        }
        let ghost strings = self.strings_spec();
        let mut offset: usize = 0;
        let mut i: usize = 0;
        while i < self.strings.len()
            invariant
                strings == self.strings_spec(),
                i <= strings.len(),
                offset == text_size(strings.take(i as int)),
                16 + text_size(strings) <= usize::MAX,
                distinct(strings),
                forall|k: int| 0 <= k < i ==> strings[k] != new@,
            decreases strings.len() - i,
        {
            let s = &self.strings[i];
            assert(strings[i as int] == s@);
            if bytes_eq(s.as_slice(), new) {
                proof {
                    let k = choose|k: int| 0 <= k < strings.len() && strings[k] == new@;
                    assert(k == i);
                    lemma_text_size_take(strings, i as int);
                }
                return offset + 8;
            }
            proof {
                assert(strings.take(i + 1).drop_last() =~= strings.take(i as int));
                lemma_text_size_take(strings, i + 1);
            }
            offset = offset + 16 + s.len();
            i += 1;
        }
        assert(strings.take(i as int) =~= strings);
        let mut copy: Vec<u8> = Vec::new();
        crate::text::append_bytes(&mut copy, new);
        let mut strs: Vec<Vec<u8>> = Vec::new();
        std::mem::swap(&mut strs, &mut self.strings);
        strs.push(copy);
        assert(Seq::new(strs@.len(), |k: int| strs@[k]@) =~= strings.push(new@));
        proof {
            assert(strings.push(new@).drop_last() =~= strings);
        }
        self.strings = strs;
        offset + 8
    }

    /// Runs `f` on a fresh procedure and appends what it emitted to the code,
    /// or a lone `Ret` where it emitted nothing; returns the procedure's
    /// offset in the code.
    pub fn procedure<F: FnOnce(&mut ProcedureBuilder)>(&mut self, f: F) -> (r: usize)
        requires
            forall|p: &mut ProcedureBuilder| f.requires((p,)),
        ensures
            r == old(self).code_spec().len(),
            final(self).code_spec().subrange(0, r as int) == old(self).code_spec(),
            final(self).code_spec().len() > r,
            ret_terminated(final(self).code_spec().skip(r as int)),
            exists|m: &mut ProcedureBuilder|
                (*m)@ == Seq::<u8>::empty() && f.ensures((m,), ()) && ((*final(m))@.len() > 0
                    ==> final(self).code_spec() == old(self).code_spec() + (*final(m))@) && (
                (*final(m))@.len() == 0 ==> final(self).code_spec() == old(self).code_spec()
                    + seq![opcode(Instruction::Ret)]),
            final(self).entry_spec() == old(self).entry_spec(),
            final(self).version_spec() == old(self).version_spec(),
            final(self).output_type_spec() == old(self).output_type_spec(),
            final(self).strings_spec() == old(self).strings_spec(),
    {
        let mut p = ProcedureBuilder::new();
        f(&mut p);
        if p.code().len() == 0 {
            p.append_block(BlockBuilder::new());
            assert(p@ =~= seq![opcode(Instruction::Ret)]);
        }
        let ghost before = self.code_spec();
        let r = self.append_procedure(&p);
        assert(self.code_spec().skip(r as int) =~= p@);
        assert(self.code_spec().subrange(0, r as int) =~= before);
        r
    }

    /// Appends the code of procedure `p`; returns its offset in the code.
    pub fn append_procedure(&mut self, p: &ProcedureBuilder) -> (r: usize)
        ensures
            r == old(self).code_spec().len(),
            final(self).code_spec() == old(self).code_spec() + p@,
            decodes(p@),
            p@.len() > 0 ==> ret_terminated(p@),
            final(self).entry_spec() == old(self).entry_spec(),
            final(self).version_spec() == old(self).version_spec(),
            final(self).output_type_spec() == old(self).output_type_spec(),
            final(self).strings_spec() == old(self).strings_spec(),
    {
        proof {
            use_type_invariant(&*self);
        }
        let proc_begin = self.code.len();
        let body = p.code();
        let ghost before = self.code@;
        let ghost b = body@;
        proof {
            lemma_decodes_append(before, b);
        }
        let mut code: Vec<u8> = Vec::new();
        std::mem::swap(&mut code, &mut self.code);
        let mut i: usize = 0;
        while i < body.len()
            invariant
                i <= b.len(),
                body@ == b,
                code@ == before + b.subrange(0, i as int),
            decreases b.len() - i,
        {
            code.push(body[i]);
            i += 1;
            assert(code@ =~= before + b.subrange(0, i as int));
        }
        assert(b.subrange(0, i as int) =~= b);
        self.code = code;
        proc_begin
    }

    /// The code emitted so far.
    pub fn code(&self) -> (r: &Vec<u8>)
        ensures
            r@ == self.code_spec(),
            decodes(self.code_spec()),
    {
        proof {
            use_type_invariant(self);
        }
        &self.code
    }

    /// Appends `DREAM` and the version digits to `out`.
    fn push_magic(&self, out: &mut Vec<u8>)
        ensures
            final(out)@ == old(out)@ + magic_bytes(self.version_spec()),
    {
        let magic = [68u8, 82, 69, 65, 77];
        crate::text::append_bytes(out, &magic);
        let digits = self.version.as_bytes();
        crate::text::append_bytes(out, &digits);
        assert(out@ =~= old(out)@ + magic_bytes(self.version_spec()));
    }

    /// Appends the header to `out`.
    fn push_header(&self, out: &mut Vec<u8>)
        ensures
            final(out)@ == old(out)@ + header_bytes(self.version_spec(), self.output_type_spec()),
    {
        self.push_magic(out);
        let outt = [79u8, 85, 84, 84];
        crate::text::append_bytes(out, &outt);
        let ot = self.output_type.as_bytes();
        crate::text::append_bytes(out, &ot);
        assert(out@ =~= old(out)@ + header_bytes(self.version_spec(), self.output_type_spec()));
    }

    /// Appends the TEXT section to `out`; returns its size in bytes.
    fn push_text_section(&self, out: &mut Vec<u8>) -> (r: usize)
        ensures
            final(out)@ == old(out)@ + text_section_bytes(self.strings_spec()),
            r == text_section_bytes(self.strings_spec()).len(),
    {
        proof {
            use_type_invariant(self);
        }
        let ghost strings = self.strings_spec();
        let mut size: usize = 0;
        let mut i: usize = 0;
        while i < self.strings.len()
            invariant
                strings == self.strings_spec(),
                i <= strings.len(),
                size == text_size(strings.take(i as int)),
                16 + text_size(strings) <= usize::MAX,
            decreases strings.len() - i,
        {
            proof {
                assert(strings.take(i + 1).drop_last() =~= strings.take(i as int));
                assert(strings[i as int] == self.strings@[i as int]@);
                lemma_text_size_take(strings, i + 1);
            }
            size = size + 16 + self.strings[i].len();
            i += 1;
        }
        assert(strings.take(i as int) =~= strings);
        let tag = [84u8, 69, 88, 84, 0, 0, 0, 0];
        crate::text::append_bytes(out, &tag);
        push_u64_le(out, size as u64);
        let ghost start = out@;
        let mut j: usize = 0;
        while j < self.strings.len()
            invariant
                strings == self.strings_spec(),
                j <= strings.len(),
                out@ == start + text_entries(strings.take(j as int)),
            decreases strings.len() - j,
        {
            let s = &self.strings[j];
            push_u64_le(out, s.len() as u64);
            crate::text::append_bytes(out, s.as_slice());
            let pad = [0u8; 8];
            crate::text::append_bytes(out, &pad);
            proof {
                assert(strings.take(j + 1).drop_last() =~= strings.take(j as int));
                assert(strings[j as int] == s@);
                assert(pad@ =~= zeros(8));
                assert(out@ =~= start + text_entries(strings.take(j + 1)));
            }
            j += 1;
        }
        proof {
            assert(strings.take(j as int) =~= strings);
            assert(tag@ =~= seq![84u8, 69, 88, 84] + zeros(4));
            lemma_le_bytes_len(size as nat, 8);
            lemma_text_entries_len(strings);
            assert(out@ =~= old(out)@ + text_section_bytes(strings));
        }
        16 + size
    }

    /// Appends the CODE section to `out`.
    fn push_code_section(&self, out: &mut Vec<u8>)
        ensures
            final(out)@ == old(out)@ + code_section_bytes(self.code_spec(), self.entry_spec()),
    {
        let head = [67u8, 79, 68, 69, 0, 0, 0, 0];
        crate::text::append_bytes(out, &head);
        let n = self.code.len() as u64;
        let e = self.entry_point as u64;
        push_u64_le(out, n);
        push_u64_le(out, e);
        crate::text::append_bytes(out, self.code.as_slice());
        proof {
            assert(n == self.code_spec().len() as u64);
            assert(e == self.entry_spec() as u64);
            assert(head@ =~= seq![67u8, 79, 68, 69] + zeros(4));
            assert(out@ =~= old(out)@ + code_section_bytes(self.code_spec(), self.entry_spec()));
        }
    }

    /// The bytes of the whole file: header, TEXT section, CODE section.
    pub fn file_bytes(&self) -> (r: Vec<u8>)
        ensures
            r@ == self.file_spec(),
            crate::disasm::disasm_spec(r@).1 is Ok,
    {
        let _code_len = self.code.len();
        proof {
            use_type_invariant(self);
            use_type_invariant(&self.version);
            let strings = self.strings_spec();
            assert forall|i: int| 0 <= i < strings.len() implies strings[i].len() <= u64::MAX by {
                lemma_text_size_take(strings, i + 1);
                assert(strings.take(i + 1).drop_last() =~= strings.take(i));
            }
            crate::disasm::lemma_file_disassembles(
                self.version_spec(),
                self.output_type_spec(),
                strings,
                self.code_spec(),
                self.entry_spec(),
            );
        }
        let mut out: Vec<u8> = Vec::new();
        self.push_header(&mut out);
        let _ = self.push_text_section(&mut out);
        self.push_code_section(&mut out);
        assert(out@ =~= self.file_spec());
        out
    }

    /// Writes `DREAM` and the version digits.
    pub fn write_magic<W: Write>(&self, f: &mut W) -> (r: Result<(), Error>)
        ensures
            r is Ok ==> final(f).written() == old(f).written() + magic_bytes(self.version_spec()),
            r is Err ==> r->Err_0 == Error::WriteError,
    {
        let mut out: Vec<u8> = Vec::new();
        self.push_magic(&mut out);
        assert(out@ =~= magic_bytes(self.version_spec()));
        put(f, out.as_slice())
    }

    /// Writes the header: magic, version, `OUTT` and the output type.
    pub fn write_header<W: Write>(&self, f: &mut W) -> (r: Result<(), Error>)
        ensures
            r is Ok ==> final(f).written() == old(f).written() + header_bytes(
                self.version_spec(),
                self.output_type_spec(),
            ),
            r is Err ==> r->Err_0 == Error::WriteError,
    {
        let mut out: Vec<u8> = Vec::new();
        self.push_header(&mut out);
        assert(out@ =~= header_bytes(self.version_spec(), self.output_type_spec()));
        put(f, out.as_slice())
    }

    /// Writes the TEXT section; returns its size in bytes.
    pub fn write_text_section<W: Write>(&self, f: &mut W) -> (r: Result<usize, Error>)
        ensures
            r is Ok ==> final(f).written() == old(f).written() + text_section_bytes(
                self.strings_spec(),
            ) && r->Ok_0 == text_section_bytes(self.strings_spec()).len(),
            r is Err ==> r->Err_0 == Error::WriteError,
    {
        let mut out: Vec<u8> = Vec::new();
        let size = self.push_text_section(&mut out);
        assert(out@ =~= text_section_bytes(self.strings_spec()));
        match put(f, out.as_slice()) {
            Ok(()) => Ok(size),
            Err(e) => Err(e),
        }
    }

    /// Writes the CODE section; returns its size in bytes.
    pub fn write_code_section<W: Write>(&self, f: &mut W) -> (r: Result<usize, Error>)
        requires
            self.code_spec().len() + 24 <= usize::MAX,
        ensures
            r is Ok ==> final(f).written() == old(f).written() + code_section_bytes(
                self.code_spec(),
                self.entry_spec(),
            ),
            r is Ok ==> r->Ok_0 == code_section_bytes(self.code_spec(), self.entry_spec()).len(),
            r is Err ==> r->Err_0 == Error::WriteError,
    {
        let mut out: Vec<u8> = Vec::new();
        self.push_code_section(&mut out);
        proof {
            lemma_le_bytes_len((self.code_spec().len() as u64) as nat, 8);
            lemma_le_bytes_len((self.entry_spec() as u64) as nat, 8);
            assert(out@ =~= code_section_bytes(self.code_spec(), self.entry_spec()));
        }
        match put(f, out.as_slice()) {
            Ok(()) => Ok(24 + self.code.len()),
            Err(e) => Err(e),
        }
    }

    /// Writes the whole file: header, TEXT section, CODE section.
    pub fn write_dream<W: Write>(&self, f: &mut W) -> (r: Result<(), Error>)
        ensures
            r is Ok ==> final(f).written() == old(f).written() + self.file_spec(),
            r is Err ==> r->Err_0 == Error::WriteError,
    {
        let out = self.file_bytes();
        put(f, out.as_slice())
    }
}

/// The table entries read from the front: the first entry, then the rest.
pub proof fn lemma_text_entries_front(strings: Seq<Seq<u8>>)
    requires
        strings.len() > 0,
    ensures
        text_entries(strings) == le64(strings[0].len() as u64) + strings[0] + zeros(8)
            + text_entries(strings.drop_first()),
        text_size(strings) == entry_size(strings[0]) + text_size(strings.drop_first()),
    decreases strings.len(),
{
    if strings.len() == 1 {
        assert(strings.drop_last() =~= Seq::<Seq<u8>>::empty());
        assert(strings.drop_first() =~= Seq::<Seq<u8>>::empty());
        assert(text_entries(strings) =~= le64(strings[0].len() as u64) + strings[0] + zeros(8)
            + text_entries(strings.drop_first()));
    } else {
        let d = strings.drop_last();
        lemma_text_entries_front(d);
        assert(d.drop_first() =~= strings.drop_first().drop_last());
        assert(d[0] == strings[0]);
        assert(strings.drop_first().last() == strings.last());
        assert(text_entries(strings) =~= le64(strings[0].len() as u64) + strings[0] + zeros(8)
            + text_entries(strings.drop_first()));
    }
}

/// The length of the table entries is the table's payload size.
pub proof fn lemma_text_entries_len(strings: Seq<Seq<u8>>)
    ensures
        text_entries(strings).len() == text_size(strings),
    decreases strings.len(),
{
    if strings.len() > 0 {
        lemma_text_entries_len(strings.drop_last());
        lemma_le_bytes_len((strings.last().len() as u64) as nat, 8);
    }
}

} // verus!
