//! Text pieces of a listing: decimal and hexadecimal numbers, escaped bytes
//! and register names, all as ASCII bytes.
use vstd::prelude::*;

use crate::isa::{is_register_byte, Register};

verus! {

/// The decimal digits of `n`.
pub open spec fn dec_digits(n: nat) -> Seq<u8>
    decreases n,
{
    if n < 10 {
        seq![(48 + n) as u8]
    } else {
        dec_digits(n / 10).push((48 + n % 10) as u8)
    }
}

/// The upper-case hexadecimal digit for `d` (below 16).
pub open spec fn hex_digit(d: nat) -> u8 {
    if d < 10 {
        (48 + d) as u8
    } else {
        (55 + d) as u8
    }
}

/// The upper-case hexadecimal digits of `n`.
pub open spec fn hex_digits(n: nat) -> Seq<u8>
    decreases n,
{
    if n < 16 {
        seq![hex_digit(n)]
    } else {
        hex_digits(n / 16).push(hex_digit(n % 16))
    }
}

/// `count` copies of byte `c`.
pub open spec fn repeat(c: u8, count: nat) -> Seq<u8> {
    Seq::new(count, |_i: int| c)
}

/// The hexadecimal digits of `n`, zero-padded to at least eight.
pub open spec fn hex8(n: nat) -> Seq<u8> {
    let d = hex_digits(n);
    if d.len() >= 8 {
        d
    } else {
        repeat(48, (8 - d.len()) as nat) + d
    }
}

/// `s`, space-padded on the right to at least twelve bytes.
pub open spec fn pad12(s: Seq<u8>) -> Seq<u8> {
    if s.len() >= 12 {
        s
    } else {
        s + repeat(32, (12 - s.len()) as nat)
    }
}

/// The lower-case hexadecimal digit for `d` (below 16).
pub open spec fn lower_hex_digit(d: nat) -> u8 {
    if d < 10 {
        (48 + d) as u8
    } else {
        (87 + d) as u8
    }
}

/// The ASCII escape of byte `c`: `\t`, `\r`, `\n`, `\'`, `\"` and `\\` for
/// those six, printable bytes as they are, `\xNN` for the rest.
pub open spec fn escape_byte(c: u8) -> Seq<u8> {
    if c == 9 {
        seq![92u8, 116]
    } else if c == 13 {
        seq![92u8, 114]
    } else if c == 10 {
        seq![92u8, 110]
    } else if c == 39 || c == 34 || c == 92 {
        seq![92u8, c]
    } else if 0x20 <= c <= 0x7e {
        seq![c]
    } else {
        seq![92u8, 120, lower_hex_digit(c as nat / 16), lower_hex_digit(c as nat % 16)]
    }
}

/// The escapes of every byte of `s`, in order.
pub open spec fn escape_all(s: Seq<u8>) -> Seq<u8>
    decreases s.len(),
{
    if s.len() == 0 {
        Seq::empty()
    } else {
        escape_all(s.drop_last()) + escape_byte(s.last())
    }
}

/// The mnemonic of register byte `b`: `rxz`, `rsi`, `rsr`, `rs0`..`rs5`,
/// `rb0`.., `rw0`.., `rd0`.., `rq0`...
pub open spec fn register_name(b: u8) -> Seq<u8> {
    if b == 0 {
        seq![114u8, 120, 122]
    } else if b == 0x28 {
        seq![114u8, 115, 105]
    } else if b == 0x30 {
        seq![114u8, 115, 114]
    } else if b < 0x40 {
        seq![114u8, 115] + dec_digits((b - 0x20) as nat)
    } else if b < 0x80 {
        seq![114u8, 98] + dec_digits((b - 0x40) as nat)
    } else if b < 0xC0 {
        seq![114u8, 119] + dec_digits((b - 0x80) as nat)
    } else if b < 0xE0 {
        seq![114u8, 100] + dec_digits((b - 0xC0) as nat)
    } else {
        seq![114u8, 113] + dec_digits((b - 0xE0) as nat)
    }
}

/// Appends the bytes of `src` to `out`.
pub fn append_bytes(out: &mut Vec<u8>, src: &[u8])
    ensures
        final(out)@ == old(out)@ + src@,
{
    let mut i: usize = 0;
    while i < src.len()
        invariant
            i <= src@.len(),
            out@ == old(out)@ + src@.subrange(0, i as int),
        decreases src@.len() - i,
    {
        out.push(src[i]);
        i += 1;
        assert(out@ =~= old(out)@ + src@.subrange(0, i as int));
    }
    assert(src@.subrange(0, i as int) =~= src@);
}

/// Appends `count` copies of `c` to `out`.
pub fn append_repeat(out: &mut Vec<u8>, c: u8, count: usize)
    ensures
        final(out)@ == old(out)@ + repeat(c, count as nat),
{
    let mut i: usize = 0;
    while i < count
        invariant
            i <= count,
            out@ == old(out)@ + repeat(c, i as nat),
        decreases count - i,
    {
        out.push(c);
        i += 1;
        assert(out@ =~= old(out)@ + repeat(c, i as nat));
    }
}

/// The decimal digits of `n`.
pub fn dec_u64(n: u64) -> (r: Vec<u8>)
    ensures
        r@ == dec_digits(n as nat),
    decreases n,
{
    if n < 10 {
        let r = vec![48 + n as u8];
        assert(r@ =~= dec_digits(n as nat));
        r
    } else {
        let mut r = dec_u64(n / 10);
        r.push(48 + (n % 10) as u8);
        r
    }
}

/// The upper-case hexadecimal digits of `n`.
fn hex_u64(n: u64) -> (r: Vec<u8>)
    ensures
        r@ == hex_digits(n as nat),
    decreases n,
{
    let d = (n % 16) as u8;
    let c = if d < 10 {
        48 + d
    } else {
        55 + d
    };
    if n < 16 {
        let r = vec![c];
        assert(r@ =~= hex_digits(n as nat));
        r
    } else {
        let mut r = hex_u64(n / 16);
        r.push(c);
        r
    }
}

/// Appends the hexadecimal digits of `n`, zero-padded to eight, to `out`.
pub fn append_hex8(out: &mut Vec<u8>, n: u64)
    ensures
        final(out)@ == old(out)@ + hex8(n as nat),
{
    let d = hex_u64(n);
    if d.len() < 8 {
        append_repeat(out, 48, 8 - d.len());
    }
    append_bytes(out, d.as_slice());
    assert(out@ =~= old(out)@ + hex8(n as nat));
}

/// Appends `s`, space-padded to twelve bytes, to `out`.
pub fn append_pad12(out: &mut Vec<u8>, s: &[u8])
    ensures
        final(out)@ == old(out)@ + pad12(s@),
{
    append_bytes(out, s);
    if s.len() < 12 {
        append_repeat(out, 32, 12 - s.len());
    }
    assert(out@ =~= old(out)@ + pad12(s@));
}

/// Appends the escape of byte `c` to `out`.
pub fn append_escaped(out: &mut Vec<u8>, c: u8)
    ensures
        final(out)@ == old(out)@ + escape_byte(c),
{
    if c == 9 {
        out.push(92);
        out.push(116);
    } else if c == 13 {
        out.push(92);
        out.push(114);
    } else if c == 10 {
        out.push(92);
        out.push(110);
    } else if c == 39 || c == 34 || c == 92 {
        out.push(92);
        out.push(c);
    } else if 0x20 <= c && c <= 0x7e {
        out.push(c);
    } else {
        let hi = c / 16;
        let lo = c % 16;
        out.push(92);
        out.push(120);
        out.push(
            if hi < 10 {
                48 + hi
            } else {
                87 + hi
            },
        );
        out.push(
            if lo < 10 {
                48 + lo
            } else {
                87 + lo
            },
        );
    }
    assert(out@ =~= old(out)@ + escape_byte(c));
}

/// Appends the mnemonic of register byte `b` to `out`.
pub fn append_register_name(out: &mut Vec<u8>, b: u8)
    requires
        is_register_byte(b),
    ensures
        final(out)@ == old(out)@ + register_name(b),
{
    let (prefix, base): (u8, u8) = if b == 0 {
        out.push(114);
        out.push(120);
        out.push(122);
        assert(out@ =~= old(out)@ + register_name(b));
        return ;
    } else if b == 0x28 {
        out.push(114);
        out.push(115);
        out.push(105);
        assert(out@ =~= old(out)@ + register_name(b));
        return ;
    } else if b == 0x30 {
        out.push(114);
        out.push(115);
        out.push(114);
        assert(out@ =~= old(out)@ + register_name(b));
        return ;
    } else if b < 0x40 {
        (115, 0x20)
    } else if b < 0x80 {
        (98, 0x40)
    } else if b < 0xC0 {
        (119, 0x80)
    } else if b < 0xE0 {
        (100, 0xC0)
    } else {
        (113, 0xE0)
    };
    out.push(114);
    out.push(prefix);
    let d = dec_u64((b - base) as u64);
    append_bytes(out, d.as_slice());
    assert(out@ =~= old(out)@ + register_name(b));
}

impl Register {
    /// The mnemonic of this register.
    pub fn name(self) -> (r: Vec<u8>)
        ensures
            r@ == register_name(self@),
            is_register_byte(self@),
    {
        let mut r: Vec<u8> = Vec::new();
        append_register_name(&mut r, self.to_u8());
        assert(r@ =~= register_name(self@));
        r
    }
}

} // verus!
