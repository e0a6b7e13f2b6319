//! The byte form of instructions: little-endian words, which byte strings
//! are well-formed instructions, and how long each one is.
use vstd::prelude::*;

use crate::errors::Error;
use crate::isa::{decode_opcode, is_register_byte, Instruction};

verus! {

/// The `n` little-endian bytes of `v` (taken modulo `256^n`).
pub open spec fn le_bytes(v: nat, n: nat) -> Seq<u8>
    decreases n,
{
    if n == 0 {
        Seq::empty()
    } else {
        seq![(v % 256) as u8] + le_bytes(v / 256, (n - 1) as nat)
    }
}

/// The eight little-endian bytes of `v`.
pub open spec fn le64(v: u64) -> Seq<u8> {
    le_bytes(v as nat, 8)
}

/// The four little-endian bytes of `v`.
pub open spec fn le32(v: u32) -> Seq<u8> {
    le_bytes(v as nat, 4)
}

/// The number that the little-endian bytes `s` spell.
pub open spec fn le_value(s: Seq<u8>) -> nat
    decreases s.len(),
{
    if s.len() == 0 {
        0
    } else {
        (s[0] + 256 * le_value(s.drop_first())) as nat
    }
}

/// `256` to the power `n`.
pub open spec fn pow256(n: nat) -> nat
    decreases n,
{
    if n == 0 {
        1
    } else {
        256 * pow256((n - 1) as nat)
    }
}

pub proof fn lemma_le_bytes_len(v: nat, n: nat)
    ensures
        le_bytes(v, n).len() == n,
    decreases n,
{
    if n > 0 {
        lemma_le_bytes_len(v / 256, (n - 1) as nat);
    }
}

/// Reading back the little-endian bytes of `v` gives `v`.
pub proof fn lemma_le_round_trip(v: nat, n: nat)
    requires
        v < pow256(n),
    ensures
        le_value(le_bytes(v, n)) == v,
    decreases n,
{
    if n > 0 {
        lemma_le_bytes_len(v / 256, (n - 1) as nat);
        lemma_le_round_trip(v / 256, (n - 1) as nat);
        assert(le_bytes(v, n).drop_first() =~= le_bytes(v / 256, (n - 1) as nat));
    }
}

/// Reading back a 64-bit word gives it.
pub proof fn lemma_le64_round_trip(v: u64)
    ensures
        le_value(le64(v)) == v,
        le64(v).len() == 8,
{
    assert(pow256(8) == 0x1_0000_0000_0000_0000) by {
        reveal_with_fuel(pow256, 9);
    }
    lemma_le_round_trip(v as nat, 8);
    lemma_le_bytes_len(v as nat, 8);
}

/// Reading back a 32-bit word gives it.
pub proof fn lemma_le32_round_trip(v: u32)
    ensures
        le_value(le32(v)) == v,
        le32(v).len() == 4,
{
    assert(pow256(4) == 0x1_0000_0000) by {
        reveal_with_fuel(pow256, 5);
    }
    lemma_le_round_trip(v as nat, 4);
    lemma_le_bytes_len(v as nat, 4);
}

/// Appends the eight little-endian bytes of `v` to `out`.
pub fn push_u64_le(out: &mut Vec<u8>, v: u64)
    ensures
        final(out)@ == old(out)@ + le64(v),
{
    let mut x = v;
    let mut i: usize = 0;
    while i < 8
        invariant
            i <= 8,
            out@ + le_bytes(x as nat, (8 - i) as nat) == old(out)@ + le64(v),
        decreases 8 - i,
    {
        let ghost before = out@;
        out.push((x % 256) as u8);
        assert(le_bytes(x as nat, (8 - i) as nat) == seq![(x % 256) as u8] + le_bytes(
            (x / 256) as nat,
            (8 - i - 1) as nat,
        ));
        assert(out@ + le_bytes((x / 256) as nat, (8 - i - 1) as nat) =~= before + le_bytes(
            x as nat,
            (8 - i) as nat,
        ));
        x = x / 256;
        i += 1;
    }
    assert(out@ + le_bytes(x as nat, 0) =~= out@);
}

/// The little-endian number in the `n` bytes of `s` from `off` (n at most 8).
pub fn read_le(s: &[u8], off: usize, n: usize) -> (r: u64)
    requires
        n <= 8,
        off + n <= s@.len(),
    ensures
        r == le_value(s@.subrange(off as int, off + n)),
{
    let len = s.len();
    let mut acc: u64 = 0;
    let mut i: usize = n;
    while i > 0
        invariant
            i <= n <= 8,
            off + n <= len == s@.len(),
            acc == le_value(s@.subrange(off + i, off + n)),
            acc < pow256((n - i) as nat),
        decreases i,
    {
        i -= 1;
        let b = s[off + i];
        assert(s@.subrange(off + i, off + n).drop_first() =~= s@.subrange(off + i + 1, off + n));
        proof {
            let k = (n - i - 1) as nat;
            assert(pow256(k + 1) == 256 * pow256(k));
            lemma_pow256_mono(k + 1, 8);
            assert(pow256(8) == 0x1_0000_0000_0000_0000) by {
                reveal_with_fuel(pow256, 9);
            }
        }
        acc = acc * 256 + b as u64;
    }
    acc
}

proof fn lemma_pow256_mono(a: nat, b: nat)
    requires
        a <= b,
    ensures
        pow256(a) <= pow256(b),
    decreases b - a,
{
    if a < b {
        lemma_pow256_mono(a, (b - 1) as nat);
    }
}

/// Whether a register byte stands at `k` in `s`.
pub open spec fn reg_at(s: Seq<u8>, k: int) -> bool {
    k < s.len() && is_register_byte(s[k])
}

/// Whether an eight-byte word fits at `k` in `s`.
pub open spec fn word_at(s: Seq<u8>, k: int) -> bool {
    k + 8 <= s.len()
}

/// Whether an instruction has a form with the alternate-mode bit `alt`.
pub open spec fn has_form(i: Instruction, alt: bool) -> bool {
    !alt || match i {
        Instruction::PushImm | Instruction::Pop | Instruction::StackLoad
        | Instruction::MapString => false,
        _ => true,
    }
}

/// The size in bytes of an instruction in the given mode, opcode included.
pub open spec fn inst_size(i: Instruction, alt: bool) -> nat {
    match i {
        Instruction::Move => if alt { 10 } else { 3 },
        Instruction::MoveImm => if alt { 17 } else { 10 },
        Instruction::MoveAddr => if alt { 25 } else { 10 },
        Instruction::Clear | Instruction::SetOne | Instruction::Push => if alt { 9 } else { 2 },
        Instruction::PushImm => 9,
        Instruction::Pop => 2,
        Instruction::StackLoad | Instruction::MapString => 10,
        _ => 1,
    }
}

/// Whether the operands of an instruction in the given mode stand complete
/// and valid in `s`, whose byte 0 is the opcode.
pub open spec fn operands_ok(i: Instruction, alt: bool, s: Seq<u8>) -> bool {
    match i {
        Instruction::Move => if alt {
            word_at(s, 1) && reg_at(s, 9)
        } else {
            reg_at(s, 1) && reg_at(s, 2)
        },
        Instruction::MoveImm => if alt {
            word_at(s, 1) && word_at(s, 9)
        } else {
            reg_at(s, 1) && word_at(s, 2)
        },
        Instruction::MoveAddr => if alt {
            word_at(s, 1) && word_at(s, 9) && word_at(s, 17)
        } else {
            reg_at(s, 1) && word_at(s, 2)
        },
        Instruction::Clear | Instruction::SetOne | Instruction::Push => if alt {
            word_at(s, 1)
        } else {
            reg_at(s, 1)
        },
        Instruction::PushImm => word_at(s, 1),
        Instruction::Pop => reg_at(s, 1),
        Instruction::StackLoad | Instruction::MapString => reg_at(s, 1) && word_at(s, 2),
        _ => true,
    }
}

/// Decodes the instruction at the start of `s`: its size, or the error that
/// reading it raises.
pub open spec fn inst_decode(s: Seq<u8>) -> Result<nat, Error> {
    if s.len() == 0 {
        Err(Error::DisassembleFailure)
    } else {
        let alt = s[0] >= 128;
        match decode_opcode(s[0]) {
            None => Err(Error::DisassembleFailure),
            Some(i) => if !has_form(i, alt) {
                Err(Error::InvalidInstruction)
            } else if operands_ok(i, alt, s) {
                Ok(inst_size(i, alt))
            } else {
                Err(Error::DisassembleFailure)
            },
        }
    }
}

/// Whether `s` is a sequence of whole, well-formed instructions.
pub open spec fn decodes(s: Seq<u8>) -> bool
    decreases s.len(),
{
    if s.len() == 0 {
        true
    } else {
        match inst_decode(s) {
            Ok(n) => if 0 < n <= s.len() {
                decodes(s.skip(n as int))
            } else {
                false
            },
            Err(_) => false,
        }
    }
}

/// Whether `e` is exactly one well-formed instruction.
pub open spec fn one_inst(e: Seq<u8>) -> bool {
    inst_decode(e) == Ok::<nat, Error>(e.len())
}

/// An instruction decodes the same whatever follows it.
pub proof fn lemma_one_inst_prefix(e: Seq<u8>, t: Seq<u8>)
    requires
        one_inst(e),
    ensures
        inst_decode(e + t) == Ok::<nat, Error>(e.len()),
        (e + t).skip(e.len() as int) == t,
{
    assert forall|k: int| 0 <= k < e.len() implies (e + t)[k] == e[k] by {}
    assert((e + t).skip(e.len() as int) =~= t);
    let s = e + t;
    let i = decode_opcode(e[0])->Some_0;
    let alt = e[0] >= 128;
    assert(operands_ok(i, alt, e));
    assert(inst_size(i, alt) == e.len());
    if word_at(e, 17) {
        assert(s.subrange(0, 25) == e.subrange(0, 25));
    }
}

/// A well-formed instruction followed by well-formed code is well-formed code.
pub proof fn lemma_decodes_cons(e: Seq<u8>, t: Seq<u8>)
    requires
        one_inst(e),
        decodes(t),
    ensures
        decodes(e + t),
{
    lemma_one_inst_prefix(e, t);
    assert(e.len() > 0);
}

/// Appending well-formed code to well-formed code keeps it well-formed.
pub proof fn lemma_decodes_append(a: Seq<u8>, b: Seq<u8>)
    requires
        decodes(a),
        decodes(b),
    ensures
        decodes(a + b),
    decreases a.len(),
{
    if a.len() == 0 {
        assert(a + b =~= b);
    } else {
        let n = inst_decode(a)->Ok_0;
        let e = a.subrange(0, n as int);
        let rest = a.skip(n as int);
        assert(a =~= e + rest);
        assert forall|k: int| 0 <= k < e.len() implies a[k] == e[k] by {}
        assert(one_inst(e)) by {
            let i = decode_opcode(a[0])->Some_0;
            let alt = a[0] >= 128;
            assert(operands_ok(i, alt, e));
        }
        lemma_decodes_append(rest, b);
        assert(a + b =~= e + (rest + b));
        lemma_decodes_cons(e, rest + b);
    }
}

/// Appending one well-formed instruction to well-formed code keeps it
/// well-formed.
pub proof fn lemma_decodes_push_inst(a: Seq<u8>, e: Seq<u8>)
    requires
        decodes(a),
        one_inst(e),
    ensures
        decodes(a + e),
{
    assert(e + Seq::<u8>::empty() =~= e);
    lemma_decodes_cons(e, Seq::empty());
    lemma_decodes_append(a, e);
}

} // verus!
