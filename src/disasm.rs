//! The disassembler: reads an object file and renders it as a listing.
use vstd::prelude::*;

use crate::builder::{
    code_section_bytes, dream_bytes, header_bytes, lemma_text_entries_front,
    lemma_text_entries_len, output_type_code, text_entries, text_section_bytes, text_size, zeros,
    OutputType, Write,
};
use crate::code::{
    decodes, inst_decode, le32, le64, le_value, lemma_le32_round_trip, lemma_le64_round_trip,
    operands_ok, read_le,
};
use crate::errors::Error;
use crate::isa::{decode_opcode, inst_name, is_register_byte, Instruction};
use crate::text::{
    append_bytes, append_escaped, append_hex8, append_pad12, append_register_name, dec_digits,
    dec_u64, escape_all, hex8, pad12, register_name,
};
use crate::version::{lemma_version_round_trip, parse_version, version_digits, MAX_VERSION_NUMBER};

verus! {

/// The decimal text of the eight-byte word at `k` in `s`.
pub open spec fn word_txt(s: Seq<u8>, k: int) -> Seq<u8> {
    dec_digits(le_value(s.subrange(k, k + 8)))
}

/// The operand text of the instruction whose opcode byte is at `k` in `s`.
pub open spec fn operand_text(s: Seq<u8>, k: int) -> Seq<u8> {
    let alt = s[k] >= 128;
    let r1 = register_name(s[k + 1]);
    match decode_opcode(s[k])->Some_0 {
        Instruction::Move => if alt {
            seq![91u8] + word_txt(s, k + 1) + seq![93u8, 44, 32] + register_name(s[k + 9])
        } else {
            r1 + seq![44u8, 32] + register_name(s[k + 2])
        },
        Instruction::MoveImm => if alt {
            seq![91u8] + word_txt(s, k + 1) + seq![93u8, 44, 32, 36] + word_txt(s, k + 9)
        } else {
            r1 + seq![44u8, 32, 36] + word_txt(s, k + 2)
        },
        Instruction::MoveAddr => if alt {
            seq![91u8] + word_txt(s, k + 1) + seq![93u8, 44, 32, 91] + word_txt(s, k + 9) + seq![
                93u8,
                44,
                32,
                36,
            ] + word_txt(s, k + 17)
        } else {
            r1 + seq![44u8, 32, 91] + word_txt(s, k + 2) + seq![93u8]
        },
        Instruction::Clear | Instruction::SetOne | Instruction::Push => if alt {
            seq![91u8] + word_txt(s, k + 1) + seq![93u8]
        } else {
            r1
        },
        Instruction::PushImm => seq![36u8] + word_txt(s, k + 1),
        Instruction::Pop => r1,
        Instruction::StackLoad => r1 + seq![44u8, 32, 91, 115, 116, 107, 43] + word_txt(s, k + 2)
            + seq![93u8],
        Instruction::MapString => r1 + seq![44u8, 32, 36] + word_txt(s, k + 2),
        _ => Seq::empty(),
    }
}

/// The listing line of the instruction at `k` in the code `s`, which starts
/// at file offset `base`; `ENTRY:` goes before it when `k` is the entry.
pub open spec fn inst_line(s: Seq<u8>, k: int, entry: nat, base: nat) -> Seq<u8> {
    let head = if k == entry {
        seq![69u8, 78, 84, 82, 89, 58, 10]
    } else {
        Seq::empty()
    };
    head + hex8((base + k) as nat) + seq![32u8, 32, 32, 32, 32, 32] + pad12(
        inst_name(decode_opcode(s[k])->Some_0),
    ) + operand_text(s, k) + seq![10u8]
}

/// The listing of the instructions of `s` from `k` on, and how reading them
/// ends.
pub open spec fn insts_spec(s: Seq<u8>, k: int, entry: nat, base: nat) -> (Seq<u8>, Result<
    (),
    Error,
>)
    decreases s.len() - k,
{
    if k < 0 || k >= s.len() {
        (Seq::empty(), Ok(()))
    } else {
        match inst_decode(s.skip(k)) {
            Err(e) => (Seq::empty(), Err(e)),
            Ok(n) => if n == 0 {
                (Seq::empty(), Err(Error::DisassembleFailure))
            } else {
                let rest = insts_spec(s, k + n, entry, base);
                (inst_line(s, k, entry, base) + rest.0, rest.1)
            },
        }
    }
}

/// Code made of whole, well-formed instructions is read by the disassembler
/// to its last byte, whatever the entry offset and base.
pub proof fn lemma_code_fully_read(s: Seq<u8>, k: int, entry: nat, base: nat)
    requires
        0 <= k <= s.len(),
        decodes(s.skip(k)),
    ensures
        insts_spec(s, k, entry, base).1 is Ok,
    decreases s.len() - k,
{
    if k < s.len() {
        let n = inst_decode(s.skip(k))->Ok_0;
        assert(s.skip(k).skip(n as int) =~= s.skip(k + n));
        lemma_code_fully_read(s, k + n, entry, base);
    }
}

/// Appends the decimal text of the word at `k` in `s`.
fn put_word(out: &mut Vec<u8>, s: &[u8], k: usize)
    requires
        k + 8 <= s@.len(),
    ensures
        final(out)@ == old(out)@ + word_txt(s@, k as int),
{
    let v = read_le(s, k, 8);
    let d = dec_u64(v);
    append_bytes(out, d.as_slice());
}

/// Whether a register byte stands at `k + j` in `s`.
fn reg_ok_at(s: &[u8], k: usize, j: usize) -> (r: bool)
    requires
        k < s@.len(),
        j <= 17,
    ensures
        r == (k + j < s@.len() && is_register_byte(s@[k + j])),
{
    if j < s.len() - k {
        match crate::isa::Register::try_from(s[k + j]) {
            Ok(_) => true,
            Err(_) => false,
        }
    } else {
        false
    }
}

/// Checks the instruction at `k` in `s`; returns its size.
#[verifier::rlimit(60)]
fn check_inst(s: &[u8], k: usize) -> (r: Result<(usize, Instruction, bool), Error>)
    requires
        k < s@.len(),
    ensures
        match inst_decode(s@.skip(k as int)) {
            Ok(n) => r matches Ok((size, i, alt)) && size == n && decode_opcode(s@[k as int])
                == Some(i) && alt == (s@[k as int] >= 128) && k + n <= s@.len(),
            Err(e) => r == Err::<(usize, Instruction, bool), Error>(e),
        },
{
    let ghost t = s@.skip(k as int);
    let len = s.len();
    let b0 = s[k];
    let alt = b0 >= 128;
    assert(forall|j: int| 0 <= j < t.len() ==> t[j] == s@[k + j]);
    assert(t.len() == len - k);
    assert(t[0] == b0);
    let inst = match Instruction::try_from(b0) {
        Ok(i) => i,
        Err(_) => return Err(Error::DisassembleFailure),
    };
    let has_alt = match inst {
        Instruction::PushImm | Instruction::Pop | Instruction::StackLoad
        | Instruction::MapString => false,
        _ => true,
    };
    if alt && !has_alt {
        return Err(Error::InvalidInstruction);
    }
    let avail = len - k;
    let ok = match inst {
        Instruction::Move => if alt {
            avail >= 9 && reg_ok_at(s, k, 9)
        } else {
            reg_ok_at(s, k, 1) && reg_ok_at(s, k, 2)
        },
        Instruction::MoveImm => if alt {
            avail >= 17
        } else {
            reg_ok_at(s, k, 1) && avail >= 10
        },
        Instruction::MoveAddr => if alt {
            avail >= 25
        } else {
            reg_ok_at(s, k, 1) && avail >= 10
        },
        Instruction::Clear | Instruction::SetOne | Instruction::Push => if alt {
            avail >= 9
        } else {
            reg_ok_at(s, k, 1)
        },
        Instruction::PushImm => avail >= 9,
        Instruction::Pop => reg_ok_at(s, k, 1),
        Instruction::StackLoad | Instruction::MapString => reg_ok_at(s, k, 1) && avail >= 10,
        _ => true,
    };
    if !ok {
        return Err(Error::DisassembleFailure);
    }
    let size: usize = match inst {
        Instruction::Move => if alt { 10 } else { 3 },
        Instruction::MoveImm => if alt { 17 } else { 10 },
        Instruction::MoveAddr => if alt { 25 } else { 10 },
        Instruction::Clear | Instruction::SetOne | Instruction::Push => if alt { 9 } else { 2 },
        Instruction::PushImm => 9,
        Instruction::Pop => 2,
        Instruction::StackLoad | Instruction::MapString => 10,
        _ => 1,
    };
    Ok((size, inst, alt))
}

/// Appends the operand text of the well-formed instruction at `k` in `s`.
#[verifier::rlimit(60)]
fn put_operands(out: &mut Vec<u8>, s: &[u8], k: usize, inst: Instruction, alt: bool)
    requires
        k < s@.len(),
        decode_opcode(s@[k as int]) == Some(inst),
        alt == (s@[k as int] >= 128),
        inst_decode(s@.skip(k as int)) is Ok,
    ensures
        final(out)@ == old(out)@ + operand_text(s@, k as int),
{
    let len = s.len();
    let ghost t = s@.skip(k as int);
    assert(forall|j: int| 0 <= j < t.len() ==> t[j] == s@[k + j]);
    assert(t.len() == len - k);
    assert(t[0] == s@[k as int]);
    assert(operands_ok(inst, alt, t));
    let ghost start = out@;
    match inst {
        Instruction::Move => if alt {
            append_bytes(out, &[91u8]);
            put_word(out, s, k + 1);
            append_bytes(out, &[93u8, 44, 32]);
            append_register_name(out, s[k + 9]);
        } else {
            append_register_name(out, s[k + 1]);
            append_bytes(out, &[44u8, 32]);
            append_register_name(out, s[k + 2]);
        },
        Instruction::MoveImm => if alt {
            append_bytes(out, &[91u8]);
            put_word(out, s, k + 1);
            append_bytes(out, &[93u8, 44, 32, 36]);
            put_word(out, s, k + 9);
        } else {
            append_register_name(out, s[k + 1]);
            append_bytes(out, &[44u8, 32, 36]);
            put_word(out, s, k + 2);
        },
        Instruction::MoveAddr => if alt {
            append_bytes(out, &[91u8]);
            put_word(out, s, k + 1);
            append_bytes(out, &[93u8, 44, 32, 91]);
            put_word(out, s, k + 9);
            append_bytes(out, &[93u8, 44, 32, 36]);
            put_word(out, s, k + 17);
        } else {
            append_register_name(out, s[k + 1]);
            append_bytes(out, &[44u8, 32, 91]);
            put_word(out, s, k + 2);
            append_bytes(out, &[93u8]);
        },
        Instruction::Clear | Instruction::SetOne | Instruction::Push => if alt {
            append_bytes(out, &[91u8]);
            put_word(out, s, k + 1);
            append_bytes(out, &[93u8]);
        } else {
            append_register_name(out, s[k + 1]);
        },
        Instruction::PushImm => {
            append_bytes(out, &[36u8]);
            put_word(out, s, k + 1);
        },
        Instruction::Pop => {
            append_register_name(out, s[k + 1]);
        },
        Instruction::StackLoad => {
            append_register_name(out, s[k + 1]);
            append_bytes(out, &[44u8, 32, 91, 115, 116, 107, 43]);
            put_word(out, s, k + 2);
            append_bytes(out, &[93u8]);
        },
        Instruction::MapString => {
            append_register_name(out, s[k + 1]);
            append_bytes(out, &[44u8, 32, 36]);
            put_word(out, s, k + 2);
        },
        _ => {},
    }
    assert(out@ =~= start + operand_text(s@, k as int));
}

/// Decodes the instruction at `k` in the code `s` and appends its listing
/// line; returns its size.
#[verifier::rlimit(60)]
fn disasm_inst(out: &mut Vec<u8>, s: &[u8], k: usize, entry: u64, base: usize) -> (r: Result<
    usize,
    Error,
>)
    requires
        k < s@.len(),
        base + s@.len() <= usize::MAX,
    ensures
        match inst_decode(s@.skip(k as int)) {
            Ok(n) => r == Ok::<usize, Error>(n as usize) && final(out)@ == old(out)@ + inst_line(
                s@,
                k as int,
                entry as nat,
                base as nat,
            ) && k + n <= s@.len(),
            Err(e) => r == Err::<usize, Error>(e) && final(out)@ == old(out)@,
        },
{
    let (size, inst, alt) = check_inst(s, k)?;
    let ghost start = out@;
    if k as u64 == entry {
        append_bytes(out, &[69u8, 78, 84, 82, 89, 58, 10]);
    }
    append_hex8(out, (base + k) as u64);
    append_bytes(out, &[32u8, 32, 32, 32, 32, 32]);
    let name = inst.name();
    append_pad12(out, name.as_slice());
    put_operands(out, s, k, inst, alt);
    append_bytes(out, &[10u8]);
    assert(out@ =~= start + inst_line(s@, k as int, entry as nat, base as nat));
    Ok(size)
}

/// Whether `tag` stands at `p` in `b`.
pub open spec fn tag_at(b: Seq<u8>, p: int, tag: Seq<u8>) -> bool {
    0 <= p && p + tag.len() <= b.len() && b.subrange(p, p + tag.len()) == tag
}

/// `n` zero bytes.
pub open spec fn zero_bytes(n: nat) -> Seq<u8> {
    Seq::new(n, |_i: int| 0u8)
}

/// The name of output type number `ot`.
pub open spec fn output_type_name(ot: nat) -> Seq<u8> {
    if ot == 0 {
        seq![66u8, 105, 110]
    } else {
        seq![76u8, 105, 98]
    }
}

/// Whether a spec outcome and an executable one agree.
pub open spec fn same_outcome(r: Result<usize, Error>, s: Result<nat, Error>) -> bool {
    match s {
        Ok(q) => r is Ok && r->Ok_0 as nat == q,
        Err(e) => r == Err::<usize, Error>(e),
    }
}

/// The listing of the header, and the position after it.
#[verifier::opaque]
pub open spec fn header_spec(b: Seq<u8>) -> (Seq<u8>, Result<nat, Error>) {
    if !tag_at(b, 0, seq![68u8, 82, 69, 65, 77]) || b.len() < 8 || parse_version(
        b.subrange(5, 8),
    ) is None {
        (Seq::empty(), Err(Error::DisassembleFailure))
    } else {
        let l1 = seq![35u8, 86, 101, 114, 115, 105, 111, 110, 32] + b.subrange(5, 8) + seq![10u8];
        if !tag_at(b, 8, seq![79u8, 85, 84, 84]) || b.len() < 16 || le_value(b.subrange(12, 16))
            > 1 {
            (l1, Err(Error::DisassembleFailure))
        } else {
            (
                l1 + seq![35u8, 79, 117, 116, 112, 117, 116, 84, 121, 112, 101, 32]
                    + output_type_name(le_value(b.subrange(12, 16))) + seq![10u8, 10],
                Ok(16),
            )
        }
    }
}

/// The listing of the string table entries from `q` with `n` payload bytes
/// left, and the position after them.
pub open spec fn entries_spec(b: Seq<u8>, q: nat, n: nat) -> (Seq<u8>, Result<nat, Error>)
    decreases n,
{
    if n == 0 {
        (Seq::empty(), Ok(q))
    } else if q + 8 > b.len() {
        (Seq::empty(), Err(Error::DisassembleFailure))
    } else {
        let l = le_value(b.subrange(q as int, q + 8int));
        if n < 16 + l || q + 16 + l > b.len() || b.subrange(q + 8int + l, q + 16int + l) != zero_bytes(
            8,
        ) {
            (Seq::empty(), Err(Error::DisassembleFailure))
        } else {
            let line = hex8(q) + seq![32u8, 32, 32, 32, 32, 32, 34] + escape_all(
                b.subrange(q + 8int, q + 8int + l),
            ) + seq![34u8, 10];
            let rest = entries_spec(b, q + 16 + l, (n - 16 - l) as nat);
            (line + rest.0, rest.1)
        }
    }
}

/// The listing of the TEXT section whose tag is at `p`, and the position
/// after it.
#[verifier::opaque]
pub open spec fn text_spec(b: Seq<u8>, p: nat) -> (Seq<u8>, Result<nat, Error>) {
    if !tag_at(b, p + 4int, zero_bytes(4)) {
        (Seq::empty(), Err(Error::DisassembleFailure))
    } else {
        let l0 = hex8(p) + seq![32u8, 32, 84, 69, 88, 84, 58, 10];
        if p + 16 > b.len() {
            (l0, Err(Error::DisassembleFailure))
        } else {
            let e = entries_spec(b, p + 16, le_value(b.subrange(p + 8int, p + 16int)));
            match e.1 {
                Err(x) => (l0 + e.0, Err(x)),
                Ok(q) => (l0 + e.0 + seq![10u8], Ok(q)),
            }
        }
    }
}

/// The listing of the CODE section whose tag is at `p`, and the position
/// after it.
#[verifier::opaque]
pub open spec fn code_spec(b: Seq<u8>, p: nat) -> (Seq<u8>, Result<nat, Error>) {
    if !tag_at(b, p + 4int, zero_bytes(4)) {
        (Seq::empty(), Err(Error::DisassembleFailure))
    } else {
        let l0 = hex8(p) + seq![32u8, 32, 67, 79, 68, 69, 58, 10];
        if p + 24 > b.len() {
            (l0, Err(Error::DisassembleFailure))
        } else {
            let size = le_value(b.subrange(p + 8int, p + 16int));
            let entry = le_value(b.subrange(p + 16int, p + 24int));
            let c0 = p + 24;
            let end = if c0 + size <= b.len() {
                c0 + size
            } else {
                b.len() as nat
            };
            let r = insts_spec(b.subrange(c0 as int, end as int), 0, entry, c0);
            match r.1 {
                Err(x) => (l0 + r.0, Err(x)),
                Ok(_) => if c0 + size > b.len() {
                    (l0 + r.0, Err(Error::DisassembleFailure))
                } else {
                    (l0 + r.0, Ok(c0 + size))
                },
            }
        }
    }
}

/// The listing of the one section whose tag is at `p`, and the position
/// after it, given which sections were already seen.
pub open spec fn section_step(b: Seq<u8>, p: nat, seen_text: bool, seen_code: bool) -> (Seq<
    u8,
>, Result<nat, Error>) {
    let r = if tag_at(b, p as int, seq![84u8, 69, 88, 84]) {
        if seen_text {
            (Seq::empty(), Err(Error::DisassembleFailure))
        } else {
            text_spec(b, p)
        }
    } else if tag_at(b, p as int, seq![67u8, 79, 68, 69]) {
        if seen_code {
            (Seq::empty(), Err(Error::DisassembleFailure))
        } else {
            code_spec(b, p)
        }
    } else {
        (Seq::empty(), Err(Error::DisassembleFailure))
    };
    match r.1 {
        Ok(q) => if q <= p || q > b.len() {
            (r.0, Err(Error::DisassembleFailure))
        } else {
            r
        },
        Err(_) => r,
    }
}

/// The listing of the sections from `p` on, given which were already seen.
pub open spec fn sections_spec(b: Seq<u8>, p: nat, seen_text: bool, seen_code: bool) -> (Seq<
    u8,
>, Result<(), Error>)
    decreases b.len() - p,
{
    if p >= b.len() {
        (Seq::empty(), Ok(()))
    } else {
        let st = section_step(b, p, seen_text, seen_code);
        match st.1 {
            Err(x) => (st.0, Err(x)),
            Ok(q) => if q <= p || q > b.len() {
                (st.0, Err(Error::DisassembleFailure))
            } else {
                let is_text = tag_at(b, p as int, seq![84u8, 69, 88, 84]);
                let r = sections_spec(b, q, seen_text || is_text, seen_code || !is_text);
                (st.0 + r.0, r.1)
            },
        }
    }
}

/// The listing of a whole byte stream, and whether it was read to the end
/// without error.
pub open spec fn disasm_spec(b: Seq<u8>) -> (Seq<u8>, Result<(), Error>) {
    let h = header_spec(b);
    match h.1 {
        Err(x) => (h.0, Err(x)),
        Ok(p) => {
            let r = sections_spec(b, p, false, false);
            (h.0 + r.0, r.1)
        },
    }
}

/// Whether `tag` stands at `p` in `b`.
fn tag_matches(b: &[u8], p: usize, tag: &[u8]) -> (r: bool)
    ensures
        r == tag_at(b@, p as int, tag@),
{
    if p > b.len() || tag.len() > b.len() - p {
        return false;
    }
    let len = b.len();
    let mut i: usize = 0;
    while i < tag.len()
        invariant
            len == b@.len(),
            p + tag@.len() <= b@.len(),
            i <= tag@.len(),
            forall|j: int| 0 <= j < i ==> b@[p + j] == tag@[j],
        decreases tag@.len() - i,
    {
        if b[p + i] != tag[i] {
            assert(b@.subrange(p as int, p + tag@.len())[i as int] != tag@[i as int]);
            return false;
        }
        i += 1;
    }
    assert(b@.subrange(p as int, p + tag@.len()) =~= tag@);
    true
}

/// Appends the listing of the header; returns the position after it.
#[verifier::rlimit(60)]
fn dis_header(b: &[u8], out: &mut Vec<u8>) -> (r: Result<usize, Error>)
    ensures
        final(out)@ == old(out)@ + header_spec(b@).0,
        same_outcome(r, header_spec(b@).1),
        r is Ok ==> r->Ok_0 <= b@.len(),
{
    reveal(header_spec);
    let len = b.len();
    if !tag_matches(b, 0, &[68u8, 82, 69, 65, 77]) || len < 8 {
        assert(seq![68u8, 82, 69, 65, 77] =~= [68u8, 82, 69, 65, 77]@);
        return Err(Error::DisassembleFailure);
    }
    assert(seq![68u8, 82, 69, 65, 77] =~= [68u8, 82, 69, 65, 77]@);
    let digits = [b[5], b[6], b[7]];
    assert(digits@ =~= b@.subrange(5, 8));
    if crate::version::Version::parse(&digits).is_err() {
        return Err(Error::DisassembleFailure);
    }
    let ghost start = out@;
    append_bytes(out, &[35u8, 86, 101, 114, 115, 105, 111, 110, 32]);
    append_bytes(out, &digits);
    append_bytes(out, &[10u8]);
    let outt = [79u8, 85, 84, 84];
    assert(outt@ =~= seq![79u8, 85, 84, 84]);
    if !tag_matches(b, 8, &outt) || len < 16 {
        assert(out@ =~= start + header_spec(b@).0);
        return Err(Error::DisassembleFailure);
    }
    let ot = read_le(b, 12, 4);
    if ot > 1 {
        assert(out@ =~= start + header_spec(b@).0);
        return Err(Error::DisassembleFailure);
    }
    append_bytes(out, &[35u8, 79, 117, 116, 112, 117, 116, 84, 121, 112, 101, 32]);
    if ot == 0 {
        append_bytes(out, &[66u8, 105, 110]);
    } else {
        append_bytes(out, &[76u8, 105, 98]);
    }
    append_bytes(out, &[10u8, 10]);
    assert(out@ =~= start + header_spec(b@).0);
    Ok(16)
}

/// Appends the listing of the TEXT section whose tag is at `p`; returns the
/// position after it.
#[verifier::rlimit(60)]
fn dis_text(b: &[u8], p: usize, out: &mut Vec<u8>) -> (r: Result<usize, Error>)
    requires
        p + 4 <= b@.len(),
    ensures
        final(out)@ == old(out)@ + text_spec(b@, p as nat).0,
        same_outcome(r, text_spec(b@, p as nat).1),
{
    reveal(text_spec);
    let len = b.len();
    let pad = [0u8; 4];
    assert(pad@ =~= zero_bytes(4));
    if !tag_matches(b, p + 4, &pad) {
        return Err(Error::DisassembleFailure);
    }
    let ghost start = out@;
    append_hex8(out, p as u64);
    append_bytes(out, &[32u8, 32, 84, 69, 88, 84, 58, 10]);
    let ghost l0 = hex8(p as nat) + seq![32u8, 32, 84, 69, 88, 84, 58, 10];
    assert(out@ =~= start + l0);
    if len - p < 16 {
        return Err(Error::DisassembleFailure);
    }
    let size = read_le(b, p + 8, 8);
    let ghost total = entries_spec(b@, (p + 16) as nat, size as nat);
    assert((p + 16) as nat == p as nat + 16);
    assert(total == entries_spec(b@, p as nat + 16, le_value(b@.subrange(p + 8int, p + 16int))));
    let ghost mid = out@;
    let mut q: usize = p + 16;
    let mut n: u64 = size;
    while n > 0
        invariant
            len == b@.len(),
            p + 16 <= len,
            q <= len,
            start == old(out)@,
            mid == start + l0,
            l0 == hex8(p as nat) + seq![32u8, 32, 84, 69, 88, 84, 58, 10],
            tag_at(b@, p + 4int, zero_bytes(4)),
            size == le_value(b@.subrange(p + 8int, p + 16int)),
            total == entries_spec(b@, p as nat + 16, le_value(b@.subrange(p + 8int, p + 16int))),
            out@ + entries_spec(b@, q as nat, n as nat).0 == mid + total.0,
            entries_spec(b@, q as nat, n as nat).1 == total.1,
        decreases n,
    {
        reveal(text_spec);
        if len - q < 8 {
            assert(out@ =~= mid + total.0);
            assert(out@ =~= start + text_spec(b@, p as nat).0);
            return Err(Error::DisassembleFailure);
        }
        let l = read_le(b, q, 8);
        if n < 16 || l > n - 16 || l > (len - q - 8) as u64 || ((len - q - 8) as u64) - l < 8 {
            assert(out@ =~= mid + total.0);
            assert(out@ =~= start + text_spec(b@, p as nat).0);
            return Err(Error::DisassembleFailure);
        }
        let lu = l as usize;
        let zeros8 = [0u8; 8];
        assert(zeros8@ =~= zero_bytes(8));
        if !tag_matches(b, q + 8 + lu, &zeros8) {
            assert(out@ =~= mid + total.0);
            assert(out@ =~= start + text_spec(b@, p as nat).0);
            return Err(Error::DisassembleFailure);
        }
        let ghost before = out@;
        append_hex8(out, q as u64);
        append_bytes(out, &[32u8, 32, 32, 32, 32, 32, 34]);
        let mut i: usize = 0;
        let ghost mid2 = out@;
        while i < lu
            invariant
                q + 8 + lu <= len == b@.len(),
                i <= lu,
                out@ == mid2 + escape_all(b@.subrange(q + 8, q + 8 + i)),
            decreases lu - i,
        {
            append_escaped(out, b[q + 8 + i]);
            assert(b@.subrange(q + 8, q + 8 + i + 1).drop_last() =~= b@.subrange(
                q + 8,
                q + 8 + i,
            ));
            i += 1;
        }
        append_bytes(out, &[34u8, 10]);
        assert(out@ =~= before + hex8(q as nat) + seq![32u8, 32, 32, 32, 32, 32, 34] + escape_all(
            b@.subrange(q + 8, q + 8 + l),
        ) + seq![34u8, 10]);
        q = q + 16 + lu;
        n = n - 16 - l;
    }
    assert(out@ =~= mid + total.0);
    append_bytes(out, &[10u8]);
    assert(out@ =~= start + text_spec(b@, p as nat).0);
    Ok(q)
}

/// Appends the listing of the CODE section whose tag is at `p`; returns the
/// position after it.
#[verifier::rlimit(60)]
fn dis_code(b: &[u8], p: usize, out: &mut Vec<u8>) -> (r: Result<usize, Error>)
    requires
        p + 4 <= b@.len(),
    ensures
        final(out)@ == old(out)@ + code_spec(b@, p as nat).0,
        same_outcome(r, code_spec(b@, p as nat).1),
{
    reveal(code_spec);
    let len = b.len();
    let pad = [0u8; 4];
    assert(pad@ =~= zero_bytes(4));
    if !tag_matches(b, p + 4, &pad) {
        return Err(Error::DisassembleFailure);
    }
    let ghost start = out@;
    append_hex8(out, p as u64);
    append_bytes(out, &[32u8, 32, 67, 79, 68, 69, 58, 10]);
    let ghost l0 = hex8(p as nat) + seq![32u8, 32, 67, 79, 68, 69, 58, 10];
    assert(out@ =~= start + l0);
    if len - p < 24 {
        return Err(Error::DisassembleFailure);
    }
    let size = read_le(b, p + 8, 8);
    let entry = read_le(b, p + 16, 8);
    let c0 = p + 24;
    let end: usize = if size <= (len - c0) as u64 {
        c0 + size as usize
    } else {
        len
    };
    let mut region: Vec<u8> = Vec::new();
    append_bytes(&mut region, &b[c0..end]);
    assert(region@ =~= b@.subrange(c0 as int, end as int));
    let ghost s = region@;
    let ghost total = insts_spec(s, 0, entry as nat, c0 as nat);
    assert(c0 as nat == p as nat + 24);
    let ghost mid = out@;
    let mut k: usize = 0;
    while k < region.len()
        invariant
            region@ == s,
            c0 + s.len() <= len,
            len == b@.len(),
            p + 24 <= len,
            c0 == p + 24,
            start == old(out)@,
            mid == start + l0,
            l0 == hex8(p as nat) + seq![32u8, 32, 67, 79, 68, 69, 58, 10],
            tag_at(b@, p + 4int, zero_bytes(4)),
            size == le_value(b@.subrange(p + 8int, p + 16int)),
            entry == le_value(b@.subrange(p + 16int, p + 24int)),
            s == b@.subrange(c0 as int, end as int),
            end == (if c0 + size <= len { c0 + size } else { len as int }),
            total == insts_spec(s, 0, entry as nat, c0 as nat),
            total == insts_spec(
                s,
                0,
                le_value(b@.subrange(p + 16int, p + 24int)),
                p as nat + 24,
            ),
            k <= s.len(),
            out@ + insts_spec(s, k as int, entry as nat, c0 as nat).0 == mid + total.0,
            insts_spec(s, k as int, entry as nat, c0 as nat).1 == total.1,
        decreases s.len() - k,
    {
        reveal(code_spec);
        let n = disasm_inst(out, region.as_slice(), k, entry, c0);
        match n {
            Ok(n) => {
                assert(out@ + insts_spec(s, (k + n) as int, entry as nat, c0 as nat).0 =~= mid
                    + total.0);
                k = k + n;
            },
            Err(e) => {
                assert(out@ =~= mid + total.0);
                assert(out@ =~= start + code_spec(b@, p as nat).0);
                return Err(e);
            },
        }
    }
    assert(out@ =~= mid + total.0);
    assert(out@ =~= start + code_spec(b@, p as nat).0);
    if size > (len - c0) as u64 {
        return Err(Error::DisassembleFailure);
    }
    Ok(c0 + size as usize)
}

/// Renders an object file as a listing.
pub struct Disassembler {
    bytes: Vec<u8>,
    listing: Vec<u8>,
}

impl Disassembler {
    /// A disassembler over `bytes`, with an empty listing.
    pub fn new(bytes: Vec<u8>) -> (r: Disassembler)
        ensures
            r.bytes_spec() == bytes@,
            r.listing_spec() == Seq::<u8>::empty(),
    {
        Disassembler { bytes, listing: Vec::new() }
    }

    /// The bytes being read.
    pub closed spec fn bytes_spec(&self) -> Seq<u8> {
        self.bytes@
    }

    /// The listing produced.
    pub closed spec fn listing_spec(&self) -> Seq<u8> {
        self.listing@
    }

    /// The listing produced so far.
    pub fn listing(&self) -> (r: &Vec<u8>)
        ensures
            r@ == self.listing_spec(),
    {
        &self.listing
    }

    /// Reads the whole byte stream: the header, then at most one TEXT and one
    /// CODE section, in either order. The listing holds everything rendered
    /// up to the end or to the first error.
    pub fn disassemble(&mut self) -> (r: Result<(), Error>)
        ensures
            final(self).bytes_spec() == old(self).bytes_spec(),
            final(self).listing_spec() == disasm_spec(old(self).bytes_spec()).0,
            r == disasm_spec(old(self).bytes_spec()).1,
    {
        let mut out: Vec<u8> = Vec::new();
        let r = dis_all(self.bytes.as_slice(), &mut out);
        self.listing = out;
        r
    }
}

/// Appends the listing of the section whose tag is at `p`; returns the
/// position after it.
#[verifier::rlimit(60)]
fn dis_section(b: &[u8], p: usize, seen_text: bool, seen_code: bool, out: &mut Vec<u8>) -> (r:
    Result<usize, Error>)
    requires
        p < b@.len(),
    ensures
        final(out)@ == old(out)@ + section_step(b@, p as nat, seen_text, seen_code).0,
        same_outcome(r, section_step(b@, p as nat, seen_text, seen_code).1),
{
    let len = b.len();
    let text = [84u8, 69, 88, 84];
    let code = [67u8, 79, 68, 69];
    assert(text@ =~= seq![84u8, 69, 88, 84]);
    assert(code@ =~= seq![67u8, 79, 68, 69]);
    let q = if tag_matches(b, p, &text) {
        if seen_text {
            return Err(Error::DisassembleFailure);
        }
        dis_text(b, p, out)
    } else if tag_matches(b, p, &code) {
        if seen_code {
            return Err(Error::DisassembleFailure);
        }
        dis_code(b, p, out)
    } else {
        return Err(Error::DisassembleFailure);
    };
    match q {
        Ok(q) => {
            if q <= p || q > len {
                return Err(Error::DisassembleFailure);
            }
            Ok(q)
        },
        Err(e) => Err(e),
    }
}

/// Appends the listing of the whole stream `b`.
fn dis_all(b: &[u8], out: &mut Vec<u8>) -> (r: Result<(), Error>)
    ensures
        final(out)@ == old(out)@ + disasm_spec(b@).0,
        r == disasm_spec(b@).1,
{
    let ghost bs = b@;
    let ghost start = out@;
    let len = b.len();
    let h = dis_header(b, out);
    let mut p = match h {
        Ok(p) => p,
        Err(e) => {
            return Err(e);
        },
    };
    let ghost hl = out@;
    let mut seen_text = false;
    let mut seen_code = false;
    let ghost total = sections_spec(bs, p as nat, false, false);
    let text = [84u8, 69, 88, 84];
    assert(text@ =~= seq![84u8, 69, 88, 84]);
    while p < len
        invariant
            b@ == bs,
            len == bs.len(),
            p <= len,
            text@ == seq![84u8, 69, 88, 84],
            start == old(out)@,
            hl == start + header_spec(bs).0,
            disasm_spec(bs) == (header_spec(bs).0 + total.0, total.1),
            out@ + sections_spec(bs, p as nat, seen_text, seen_code).0 == hl + total.0,
            sections_spec(bs, p as nat, seen_text, seen_code).1 == total.1,
        decreases len - p,
    {
        let is_text = tag_matches(b, p, &text);
        match dis_section(b, p, seen_text, seen_code, out) {
            Ok(q) => {
                seen_text = seen_text || is_text;
                seen_code = seen_code || !is_text;
                p = q;
            },
            Err(e) => {
                assert(out@ =~= hl + total.0);
                assert(out@ =~= start + disasm_spec(bs).0);
                return Err(e);
            },
        }
    }
    assert(out@ =~= hl + total.0);
    assert(out@ =~= start + disasm_spec(bs).0);
    Ok(())
}

/// Disassembles `dream` and writes its listing to `f`. Where the stream is
/// malformed, the listing up to the fault is written before the error is
/// returned.
pub fn disassemble<W: Write>(dream: Vec<u8>, f: &mut W) -> (r: Result<(), Error>)
    ensures
        r is Ok ==> disasm_spec(dream@).1 is Ok && final(f).written() == old(f).written()
            + disasm_spec(dream@).0,
        disasm_spec(dream@).1 is Err ==> r is Err,
        r is Err ==> r->Err_0 == Error::WriteError || (r == disasm_spec(dream@).1
            && final(f).written() == old(f).written() + disasm_spec(dream@).0),
{
    let mut d = Disassembler::new(dream);
    let result = d.disassemble();
    match f.write_bytes(d.listing().as_slice()) {
        Ok(_) => result,
        Err(e) => Err(e),
    }
}

/// Every entry of a string table is shorter than a 64-bit length.
pub open spec fn lengths_fit(strings: Seq<Seq<u8>>) -> bool {
    forall|i: int| 0 <= i < strings.len() ==> strings[i].len() <= u64::MAX
}

/// A string table as the builder writes it is read back entry by entry.
proof fn lemma_entries_read(b: Seq<u8>, q: nat, strings: Seq<Seq<u8>>)
    requires
        q + text_entries(strings).len() <= b.len(),
        b.subrange(q as int, (q + text_entries(strings).len()) as int) == text_entries(strings),
        lengths_fit(strings),
    ensures
        entries_spec(b, q, text_size(strings)).1 == Ok::<nat, Error>(q + text_size(strings)),
    decreases strings.len(),
{
    lemma_text_entries_len(strings);
    if strings.len() > 0 {
        lemma_text_entries_front(strings);
        let s0 = strings[0];
        let l = s0.len();
        let rest = strings.drop_first();
        let e0 = le64(l as u64);
        lemma_le64_round_trip(l as u64);
        lemma_text_entries_len(rest);
        let t = text_entries(strings);
        let whole = b.subrange(q as int, (q + t.len()) as int);
        assert(t == e0 + s0 + zeros(8) + text_entries(rest));
        assert(b.subrange(q as int, q + 8int) =~= e0) by {
            assert forall|i: int| 0 <= i < 8 implies b[q + i] == e0[i] by {
                assert(whole[i] == b[q + i]);
                assert(t[i] == e0[i]);
            }
        }
        assert(b.subrange(q + 8int + l, q + 16int + l) =~= zero_bytes(8)) by {
            assert forall|i: int| 0 <= i < 8 implies #[trigger] b.subrange(
                q + 8int + l,
                q + 16int + l,
            )[i] == 0u8 by {
                assert(whole[8 + l + i] == b[q + 8 + l + i]);
                assert(t[8 + l + i] == zeros(8)[i]);
            }
        }
        let q2 = (q + 16 + l) as nat;
        assert(b.subrange(q2 as int, (q2 + text_entries(rest).len()) as int) =~= text_entries(rest)) by {
            assert forall|i: int| 0 <= i < text_entries(rest).len() implies b[q2 + i]
                == text_entries(rest)[i] by {
                assert(whole[16 + l + i] == b[q2 + i]);
                assert(t[16 + l + i] == text_entries(rest)[i]);
            }
        }
        assert forall|i: int| 0 <= i < rest.len() implies rest[i].len() <= u64::MAX by {
            assert(rest[i] == strings[i + 1]);
        }
        lemma_entries_read(b, q2, rest);
        assert(le_value(b.subrange(q as int, q + 8int)) == l);
    }
}

/// A file as a builder writes it, whose code is well-formed, is read by the
/// disassembler to its end without error: header, string table and every
/// instruction of the code.
pub proof fn lemma_file_disassembles(
    version: nat,
    ot: OutputType,
    strings: Seq<Seq<u8>>,
    code: Seq<u8>,
    entry: nat,
)
    requires
        version <= MAX_VERSION_NUMBER,
        decodes(code),
        lengths_fit(strings),
        text_size(strings) <= u64::MAX,
        code.len() <= u64::MAX,
    ensures
        disasm_spec(dream_bytes(version, ot, strings, code, entry)).1 is Ok,
{
    let bs = dream_bytes(version, ot, strings, code, entry);
    let h = header_bytes(version, ot);
    let t = text_section_bytes(strings);
    let c = code_section_bytes(code, entry);
    let ts: int = text_size(strings) as int;
    lemma_text_entries_len(strings);
    lemma_le64_round_trip(ts as u64);
    lemma_le64_round_trip(code.len() as u64);
    lemma_le64_round_trip(entry as u64);
    lemma_le32_round_trip(output_type_code(ot));
    lemma_version_round_trip(version);
    assert(h.len() == 16);
    assert(t.len() == 16 + ts);
    assert(c.len() == 24 + code.len());
    assert(bs == h + t + c);
    let p2: int = 16 + t.len() as int;
    // The header.
    assert(bs.subrange(0, 5) =~= seq![68u8, 82, 69, 65, 77]);
    assert(bs.subrange(5, 8) =~= version_digits(version));
    assert(bs.subrange(8, 12) =~= seq![79u8, 85, 84, 84]);
    assert(bs.subrange(12, 16) =~= le32(output_type_code(ot)));
    assert(header_spec(bs).1 == Ok::<nat, Error>(16)) by {
        reveal(header_spec);
    }
    // The string table.
    assert(bs.subrange(16, 20) =~= seq![84u8, 69, 88, 84]);
    assert(bs.subrange(20, 24) =~= zero_bytes(4));
    assert(bs.subrange(24, 32) =~= le64(ts as u64));
    assert(bs.subrange(32, 32 + ts) =~= text_entries(strings));
    lemma_entries_read(bs, 32, strings);
    assert(text_spec(bs, 16).1 == Ok::<nat, Error>(p2 as nat)) by {
        reveal(text_spec);
    }
    // The code.
    assert(bs.subrange(p2, p2 + 4) =~= seq![67u8, 79, 68, 69]);
    assert(bs.subrange(p2 + 4, p2 + 8) =~= zero_bytes(4));
    assert(bs.subrange(p2 + 8, p2 + 16) =~= le64(code.len() as u64));
    assert(bs.subrange(p2 + 16, p2 + 24) =~= le64(entry as u64));
    assert(bs.subrange(p2 + 24, bs.len() as int) =~= code);
    assert(code.skip(0) =~= code);
    lemma_code_fully_read(code, 0, (entry as u64) as nat, (p2 + 24) as nat);
    assert(code_spec(bs, p2 as nat).1 == Ok::<nat, Error>(bs.len())) by {
        reveal(code_spec);
    }
    // The sections, in order.
    assert(tag_at(bs, 16, seq![84u8, 69, 88, 84]));
    assert(section_step(bs, 16, false, false).1 == Ok::<nat, Error>(p2 as nat));
    assert(!tag_at(bs, p2, seq![84u8, 69, 88, 84])) by {
        assert(bs.subrange(p2, p2 + 4)[0] == 67u8);
    }
    assert(tag_at(bs, p2, seq![67u8, 79, 68, 69]));
    assert(section_step(bs, p2 as nat, true, false).1 == Ok::<nat, Error>(bs.len()));
    assert(sections_spec(bs, bs.len(), true, true).1 is Ok);
    assert(sections_spec(bs, p2 as nat, true, false).1 is Ok);
    assert(sections_spec(bs, 16, false, false).1 is Ok);
}

} // verus!
