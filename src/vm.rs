//! The machine's state: its stack and register file, and the decisions of
//! its syscall interface that do not touch the host.
use vstd::prelude::*;

use crate::code::{le64, le_value, lemma_le_bytes_len, push_u64_le, read_le};
use crate::isa::Register;

verus! {

/// The size of the machine's stack in bytes.
pub const STACK_SIZE: usize = 4096;

/// The number of general-purpose cells.
pub const NUM_REGISTERS_PER_SIZE: usize = 32;

/// An error that stops the machine.
#[derive(Clone, Copy, Debug, PartialEq, Eq, Structural)]
pub enum VMError {
    StackOverflow,
    StackUnderflow,
    InvalidSyscall,
    InvalidPath,
}

/// A fixed-capacity byte stack of `N` bytes.
pub struct Stack<const N: usize> {
    allocated: usize,
    bytes: [u8; N],
}

impl<const N: usize> View for Stack<N> {
    type V = Seq<u8>;

    /// The bytes pushed and not yet popped, oldest first.
    closed spec fn view(&self) -> Seq<u8> {
        self.bytes@.subrange(0, self.allocated as int)
    }
}

impl<const N: usize> Stack<N> {
    #[verifier::type_invariant]
    closed spec fn inv(self) -> bool {
        self.allocated <= N
    }

    /// An empty stack.
    pub fn new() -> (r: Stack<N>)
        ensures
            r@ == Seq::<u8>::empty(),
    {
        let r = Stack { allocated: 0, bytes: [0u8; N] };
        assert(r@ =~= Seq::<u8>::empty());
        r
    }

    /// The number of bytes on the stack.
    pub fn allocated(&self) -> (r: usize)
        ensures
            r == self@.len(),
            r <= N,
    {
        proof {
            use_type_invariant(self);
        }
        self.allocated
    }

    /// Pushes `bytes`; fails with `StackOverflow`, leaving the stack as it
    /// was, where they do not fit.
    pub fn push_bytes(&mut self, bytes: &[u8]) -> (r: Result<(), VMError>)
        ensures
            old(self)@.len() + bytes@.len() <= N ==> r is Ok && final(self)@ == old(self)@ + bytes@,
            old(self)@.len() + bytes@.len() > N ==> r == Err::<(), VMError>(VMError::StackOverflow)
                && final(self)@ == old(self)@,
    {
        proof {
            use_type_invariant(&*self);
        }
        let begin = self.allocated;
        if bytes.len() > N - begin {
            return Err(VMError::StackOverflow);
        }
        let ghost old_view = self@;
        let mut i: usize = 0;
        while i < bytes.len()
            invariant
                begin == self.allocated,
                begin + bytes@.len() <= N,
                self.bytes@.len() == N,
                i <= bytes@.len(),
                self.bytes@.subrange(0, begin as int) == old_view,
                forall|j: int| 0 <= j < i ==> self.bytes@[begin + j] == bytes@[j],
            decreases bytes@.len() - i,
        {
            self.bytes[begin + i] = bytes[i];
            i += 1;
            assert(self.bytes@.subrange(0, begin as int) =~= old_view);
        }
        self.allocated = begin + bytes.len();
        assert(self@ =~= old_view + bytes@);
        Ok(())
    }

    /// Pops the top `n` bytes, oldest first; fails with `StackUnderflow`,
    /// leaving the stack as it was, where fewer are on it.
    pub fn pop_bytes(&mut self, n: usize) -> (r: Result<Vec<u8>, VMError>)
        ensures
            n <= old(self)@.len() ==> r is Ok && r->Ok_0@ == old(self)@.subrange(
                old(self)@.len() - n,
                old(self)@.len() as int,
            ) && final(self)@ == old(self)@.subrange(0, old(self)@.len() - n),
            n > old(self)@.len() ==> r == Err::<Vec<u8>, VMError>(VMError::StackUnderflow)
                && final(self)@ == old(self)@,
    {
        proof {
            use_type_invariant(&*self);
        }
        if n > self.allocated {
            return Err(VMError::StackUnderflow);
        }
        let end = self.allocated;
        let begin = end - n;
        let mut out: Vec<u8> = Vec::new();
        let mut i: usize = begin;
        while i < end
            invariant
                begin <= i <= end <= N,
                self.bytes@.len() == N,
                out@ == self.bytes@.subrange(begin as int, i as int),
            decreases end - i,
        {
            out.push(self.bytes[i]);
            i += 1;
            assert(out@ =~= self.bytes@.subrange(begin as int, i as int));
        }
        let ghost old_view = self@;
        self.allocated = begin;
        assert(out@ =~= old_view.subrange(old_view.len() - n, old_view.len() as int));
        assert(self@ =~= old_view.subrange(0, old_view.len() - n));
        Ok(out)
    }

    /// Pushes the eight little-endian bytes of `value`.
    pub fn push(&mut self, value: u64) -> (r: Result<(), VMError>)
        ensures
            old(self)@.len() + 8 <= N ==> r is Ok && final(self)@ == old(self)@ + le64(value),
            old(self)@.len() + 8 > N ==> r == Err::<(), VMError>(VMError::StackOverflow)
                && final(self)@ == old(self)@,
    {
        let mut bytes: Vec<u8> = Vec::new();
        push_u64_le(&mut bytes, value);
        proof {
            lemma_le_bytes_len(value as nat, 8);
            assert(bytes@ =~= le64(value));
        }
        self.push_bytes(bytes.as_slice())
    }

    /// Pops an eight-byte little-endian value.
    pub fn pop(&mut self) -> (r: Result<u64, VMError>)
        ensures
            8 <= old(self)@.len() ==> r is Ok && r->Ok_0 == le_value(
                old(self)@.subrange(old(self)@.len() - 8, old(self)@.len() as int),
            ) && final(self)@ == old(self)@.subrange(0, old(self)@.len() - 8),
            8 > old(self)@.len() ==> r == Err::<u64, VMError>(VMError::StackUnderflow)
                && final(self)@ == old(self)@,
    {
        let bytes = self.pop_bytes(8)?;
        let v = read_le(bytes.as_slice(), 0, 8);
        assert(bytes@.subrange(0, 8) =~= bytes@);
        Ok(v)
    }
}

/// The 32 general-purpose cells; the B, W, D and Q registers of index `i`
/// are the low 8, 16, 32 and 64 bits of cell `i`.
pub struct General {
    cells: [u64; 32],
}

/// The width in bits of the view that a register byte of class B, W, D or
/// Q names.
pub open spec fn view_modulus(b: u8) -> nat {
    if b < 0x80 {
        0x100
    } else if b < 0xC0 {
        0x1_0000
    } else if b < 0xE0 {
        0x1_0000_0000
    } else {
        0x1_0000_0000_0000_0000
    }
}

/// Whether register byte `b` names a general-purpose view.
pub open spec fn is_general(b: u8) -> bool {
    (0x40 <= b < 0x60) || (0x80 <= b < 0xA0) || 0xC0 <= b
}

/// The cell that general-purpose register byte `b` names.
pub open spec fn cell_index(b: u8) -> int {
    (b % 32) as int
}

/// A cell after writing `v` through a view of modulus `m`: the bits above
/// the view are kept.
pub open spec fn write_view(cell: u64, v: u64, m: nat) -> u64 {
    (cell as nat - cell as nat % m + v as nat % m) as u64
}

impl View for General {
    type V = Seq<u64>;

    closed spec fn view(&self) -> Seq<u64> {
        self.cells@
    }
}

impl General {
    /// All cells zero.
    pub fn new() -> (r: General)
        ensures
            r@ == Seq::new(32, |_i: int| 0u64),
    {
        let cells = [0u64; 32];
        assert(cells@ =~= Seq::new(32, |_i: int| 0u64));
        General { cells }
    }

    /// The value of general-purpose register `b`: the low bits of its cell.
    pub fn read(&self, b: u8) -> (r: u64)
        requires
            is_general(b),
        ensures
            self@.len() == 32,
            r == self@[cell_index(b)] as nat % view_modulus(b),
    {
        let cell = self.cells[(b % 32) as usize];
        if b < 0x80 {
            cell % 0x100
        } else if b < 0xC0 {
            cell % 0x1_0000
        } else if b < 0xE0 {
            cell % 0x1_0000_0000
        } else {
            cell
        }
    }

    /// Writes `v` through general-purpose register `b`: only the bits of its
    /// view change.
    pub fn write(&mut self, b: u8, v: u64)
        requires
            is_general(b),
        ensures
            final(self)@ == old(self)@.update(
                cell_index(b),
                write_view(old(self)@[cell_index(b)], v, view_modulus(b)),
            ),
    {
        let i = (b % 32) as usize;
        let cell = self.cells[i];
        let new_cell = if b < 0x80 {
            cell - cell % 0x100 + v % 0x100
        } else if b < 0xC0 {
            cell - cell % 0x1_0000 + v % 0x1_0000
        } else if b < 0xE0 {
            cell - cell % 0x1_0000_0000 + v % 0x1_0000_0000
        } else {
            assert(cell as nat % 0x1_0000_0000_0000_0000 == cell as nat);
            assert(v as nat % 0x1_0000_0000_0000_0000 == v as nat);
            v
        };
        assert(new_cell == write_view(cell, v, view_modulus(b)));
        self.cells[i] = new_cell;
    }
}

/// The register file.
pub struct Registers {
    /// The zero register: reads as zero, writes are dropped.
    pub z: u8,
    /// The syscall index register.
    pub rsi: u16,
    /// The syscall return register.
    pub rsr: u64,
    /// The syscall argument registers.
    pub rs: [u64; 6],
    /// The general-purpose cells.
    pub r: General,
}

impl Registers {
    /// All registers zero.
    pub fn new() -> (r: Registers)
        ensures
            r.z == 0,
            r.rsi == 0,
            r.rsr == 0,
            forall|i: int| 0 <= i < 6 ==> r.rs@[i] == 0,
            r.r@ == Seq::new(32, |_i: int| 0u64),
    {
        Registers { z: 0, rsi: 0, rsr: 0, rs: [0u64; 6], r: General::new() }
    }

    /// The value of register `reg`, zero-extended.
    pub fn read(&self, reg: Register) -> (r: u64)
        ensures
            reg@ == 0x00 ==> r == 0,
            reg@ == 0x28 ==> r == self.rsi as u64,
            reg@ == 0x30 ==> r == self.rsr,
            0x20 <= reg@ <= 0x25 ==> r == self.rs@[reg@ - 0x20],
            is_general(reg@) ==> r == self.r@[cell_index(reg@)] as nat % view_modulus(reg@),
    {
        let b = reg.to_u8();
        if b == 0x00 {
            0
        } else if b == 0x28 {
            self.rsi as u64
        } else if b == 0x30 {
            self.rsr
        } else if b < 0x40 {
            self.rs[(b - 0x20) as usize]
        } else {
            self.r.read(b)
        }
    }

    /// Writes `v` to register `reg`, truncated to the register's width; a
    /// write to the zero register is dropped.
    pub fn write(&mut self, reg: Register, v: u64)
        ensures
            final(self).z == old(self).z,
            final(self).rsi == (if reg@ == 0x28 {
                (v % 0x1_0000) as u16
            } else {
                old(self).rsi
            }),
            final(self).rsr == (if reg@ == 0x30 {
                v
            } else {
                old(self).rsr
            }),
            final(self).rs@ == (if 0x20 <= reg@ <= 0x25 {
                old(self).rs@.update(reg@ - 0x20, v)
            } else {
                old(self).rs@
            }),
            final(self).r@ == (if is_general(reg@) {
                old(self).r@.update(
                    cell_index(reg@),
                    write_view(old(self).r@[cell_index(reg@)], v, view_modulus(reg@)),
                )
            } else {
                old(self).r@
            }),
    {
        let b = reg.to_u8();
        if b == 0x00 {
        } else if b == 0x28 {
            self.rsi = (v % 0x1_0000) as u16;
        } else if b == 0x30 {
            self.rsr = v;
        } else if b < 0x40 {
            self.rs[(b - 0x20) as usize] = v;
        } else {
            self.r.write(b, v);
        }
    }
}

/// The machine: its register file and its stack.
pub struct VM {
    pub reg: Registers,
    pub stack: Stack<STACK_SIZE>,
}

impl VM {
    /// A machine with every register zero and an empty stack.
    pub fn new() -> (r: VM)
        ensures
            r.stack@ == Seq::<u8>::empty(),
            r.reg.rsi == 0,
            r.reg.rsr == 0,
    {
        VM { reg: Registers::new(), stack: Stack::new() }
    }
}

/// A file identifier.
pub type FileID = u64;

pub const BADFID: FileID = 0;

pub const STDIN: FileID = 1;

pub const STDOUT: FileID = 2;

pub const STDERR: FileID = 3;

/// The host descriptor for a file identifier: identifier `i` is descriptor
/// `i - 1`, so that the three standard streams are descriptors 0, 1 and 2,
/// and the null identifier is -1, which names no file.
pub open spec fn raw_fd_of(fid: FileID) -> int {
    fid - 1
}

/// The host descriptor for a file identifier; the identifier must fit a
/// descriptor.
pub fn fd_of_file_id(fid: FileID) -> (r: i32)
    requires
        fid <= i32::MAX,
    ensures
        r == raw_fd_of(fid),
{
    fid as i32 - 1
}

/// The file identifier for a host descriptor: descriptors 0, 1 and 2 are the
/// standard streams, and every other descriptor gets an identifier outside
/// the reserved ones.
pub fn file_id_of_fd(fd: i32) -> (r: FileID)
    requires
        fd >= 0,
    ensures
        r == fd + 1,
        fd == 0 ==> r == STDIN,
        fd == 1 ==> r == STDOUT,
        fd == 2 ==> r == STDERR,
        fd > 2 ==> r > STDERR,
        raw_fd_of(r) == fd,
{
    fd as u64 + 1
}

/// The bits that an open request may hold.
pub const OPEN_FLAGS_MASK: u64 = 0x3F;

/// How a file is to be opened: a set of the bits `Read` 0x1, `Write` 0x2,
/// `Append` 0x4, `Truncate` 0x8, `Create` 0x10 and `CreateNew` 0x20.
#[derive(Clone, Copy, Debug, PartialEq, Eq, Structural)]
pub struct OpenFlags {
    bits: u64,
}

impl View for OpenFlags {
    type V = u64;

    closed spec fn view(&self) -> u64 {
        self.bits
    }
}

impl OpenFlags {
    #[verifier::type_invariant]
    closed spec fn inv(self) -> bool {
        self.bits <= OPEN_FLAGS_MASK
    }

    /// No flag.
    pub fn none() -> (r: OpenFlags)
        ensures
            r@ == 0,
    {
        OpenFlags { bits: 0 }
    }

    /// Open for reading.
    pub fn read() -> (r: OpenFlags)
        ensures
            r@ == 0x1,
    {
        OpenFlags { bits: 0x1 }
    }

    /// Open for writing.
    pub fn write() -> (r: OpenFlags)
        ensures
            r@ == 0x2,
    {
        OpenFlags { bits: 0x2 }
    }

    /// Append to the end.
    pub fn append() -> (r: OpenFlags)
        ensures
            r@ == 0x4,
    {
        OpenFlags { bits: 0x4 }
    }

    /// Truncate on opening.
    pub fn truncate() -> (r: OpenFlags)
        ensures
            r@ == 0x8,
    {
        OpenFlags { bits: 0x8 }
    }

    /// Create if missing.
    pub fn create() -> (r: OpenFlags)
        ensures
            r@ == 0x10,
    {
        OpenFlags { bits: 0x10 }
    }

    /// Create, failing if the file exists.
    pub fn create_new() -> (r: OpenFlags)
        ensures
            r@ == 0x20,
    {
        OpenFlags { bits: 0x20 }
    }

    /// The flags of a raw word; a word with a bit outside the six flags is
    /// rejected.
    pub fn from_bits(bits: u64) -> (r: Option<OpenFlags>)
        ensures
            bits & !OPEN_FLAGS_MASK == 0 ==> (r matches Some(f) && f@ == bits),
            bits & !OPEN_FLAGS_MASK != 0 ==> r is None,
    {
        if bits & !OPEN_FLAGS_MASK == 0 {
            assert(bits <= 0x3F) by (bit_vector)
                requires
                    bits & !0x3Fu64 == 0,
            ;
            Some(OpenFlags { bits })
        } else {
            None
        }
    }

    /// The raw word.
    pub fn bits(self) -> (r: u64)
        ensures
            r == self@,
    {
        self.bits
    }

    /// The flags of either set.
    pub fn union(self, other: OpenFlags) -> (r: OpenFlags)
        ensures
            r@ == self@ | other@,
    {
        proof {
            use_type_invariant(&self);
            use_type_invariant(&other);
        }
        let a = self.bits;
        let b = other.bits;
        assert(a | b <= 0x3F) by (bit_vector)
            requires
                a <= 0x3F,
                b <= 0x3F,
        ;
        OpenFlags { bits: a | b }
    }

    /// Whether every flag of `other` is in this set.
    pub fn contains(self, other: OpenFlags) -> (r: bool)
        ensures
            r == (self@ & other@ == other@),
    {
        self.bits & other.bits == other.bits
    }
}

/// The six host open options: read, write, append, truncate, create and
/// create-new, each set exactly when its flag is.
pub open spec fn open_options_spec(bits: u64) -> (bool, bool, bool, bool, bool, bool) {
    (
        bits & 0x1 != 0,
        bits & 0x2 != 0,
        bits & 0x4 != 0,
        bits & 0x8 != 0,
        bits & 0x10 != 0,
        bits & 0x20 != 0,
    )
}

/// The host open options that a set of flags asks for.
pub fn open_options(flags: OpenFlags) -> (r: (bool, bool, bool, bool, bool, bool))
    ensures
        r == open_options_spec(flags@),
{
    let b = flags.bits();
    (b & 0x1 != 0, b & 0x2 != 0, b & 0x4 != 0, b & 0x8 != 0, b & 0x10 != 0, b & 0x20 != 0)
}

/// The host-mediated syscalls, by index.
#[derive(Clone, Copy, Debug, PartialEq, Eq, Structural)]
pub enum Syscall {
    Read,
    Write,
    Open,
    Close,
}

/// The syscall with index `i`, if any.
pub open spec fn syscall_of(i: u16) -> Option<Syscall> {
    if i == 0 {
        Some(Syscall::Read)
    } else if i == 1 {
        Some(Syscall::Write)
    } else if i == 2 {
        Some(Syscall::Open)
    } else if i == 3 {
        Some(Syscall::Close)
    } else {
        None
    }
}

impl Syscall {
    /// The syscall with index `i`; fails with `InvalidSyscall` on any other.
    pub fn from_index(i: u16) -> (r: Result<Syscall, VMError>)
        ensures
            match syscall_of(i) {
                Some(s) => r == Ok::<Syscall, VMError>(s),
                None => r == Err::<Syscall, VMError>(VMError::InvalidSyscall),
            },
    {
        if i == 0 {
            Ok(Syscall::Read)
        } else if i == 1 {
            Ok(Syscall::Write)
        } else if i == 2 {
            Ok(Syscall::Open)
        } else if i == 3 {
            Ok(Syscall::Close)
        } else {
            Err(VMError::InvalidSyscall)
        }
    }

    /// The number of argument registers the syscall reads.
    pub fn arity(self) -> (r: u8)
        ensures
            r == (if self == Syscall::Close { 1u8 } else { 3u8 }),
    {
        match self {
            Syscall::Close => 1,
            _ => 3,
        }
    }
}

/// What the host is asked to do for a syscall.
#[derive(Clone, Copy, Debug, PartialEq, Eq, Structural)]
pub enum HostRequest {
    /// Read up to `len` bytes of file `fid` into guest memory at `buf`.
    Read { fid: FileID, buf: u64, len: u64 },
    /// Write `len` bytes of guest memory at `buf` to file `fid`.
    Write { fid: FileID, buf: u64, len: u64 },
    /// Open the path of `len` bytes at `path` with `flags`.
    Open { path: u64, len: u64, flags: OpenFlags },
    /// Close file `fid`.
    Close { fid: FileID },
}

/// The request that a syscall with `nargs` arguments makes of the host, read
/// from the syscall registers; fails with `InvalidSyscall` where the index
/// names no syscall of that arity or the open flags hold an unknown bit.
pub fn syscall_request(regs: &Registers, nargs: u8) -> (r: Result<HostRequest, VMError>)
    ensures
        match syscall_of(regs.rsi) {
            Some(Syscall::Read) => if nargs == 3 {
                r == Ok::<HostRequest, VMError>(
                    HostRequest::Read { fid: regs.rs@[0], buf: regs.rs@[1], len: regs.rs@[2] },
                )
            } else {
                r == Err::<HostRequest, VMError>(VMError::InvalidSyscall)
            },
            Some(Syscall::Write) => if nargs == 3 {
                r == Ok::<HostRequest, VMError>(
                    HostRequest::Write { fid: regs.rs@[0], buf: regs.rs@[1], len: regs.rs@[2] },
                )
            } else {
                r == Err::<HostRequest, VMError>(VMError::InvalidSyscall)
            },
            Some(Syscall::Open) => if nargs == 3 && regs.rs@[2] & !OPEN_FLAGS_MASK == 0 {
                (r matches Ok(HostRequest::Open { path, len, flags }) && path == regs.rs@[0] && len
                    == regs.rs@[1] && flags@ == regs.rs@[2])
            } else {
                r == Err::<HostRequest, VMError>(VMError::InvalidSyscall)
            },
            Some(Syscall::Close) => if nargs == 1 {
                r == Ok::<HostRequest, VMError>(HostRequest::Close { fid: regs.rs@[0] })
            } else {
                r == Err::<HostRequest, VMError>(VMError::InvalidSyscall)
            },
            None => r == Err::<HostRequest, VMError>(VMError::InvalidSyscall),
        },
{
    let call = Syscall::from_index(regs.rsi)?;
    if nargs != call.arity() {
        return Err(VMError::InvalidSyscall);
    }
    match call {
        Syscall::Read => Ok(HostRequest::Read { fid: regs.rs[0], buf: regs.rs[1], len: regs.rs[2] }),
        Syscall::Write => Ok(
            HostRequest::Write { fid: regs.rs[0], buf: regs.rs[1], len: regs.rs[2] },
        ),
        Syscall::Open => match OpenFlags::from_bits(regs.rs[2]) {
            Some(flags) => Ok(HostRequest::Open { path: regs.rs[0], len: regs.rs[1], flags }),
            None => Err(VMError::InvalidSyscall),
        },
        Syscall::Close => Ok(HostRequest::Close { fid: regs.rs[0] }),
    }
}

/// Records the host's answer to a request: a read returns the byte count and
/// an open the new file identifier in the return register; a write or a close
/// returns nothing.
pub fn complete_syscall(regs: &mut Registers, req: HostRequest, result: u64)
    ensures
        match req {
            HostRequest::Read { .. } | HostRequest::Open { .. } => final(regs).rsr == result,
            _ => final(regs).rsr == old(regs).rsr,
        },
        final(regs).rsi == old(regs).rsi,
        final(regs).rs == old(regs).rs,
        final(regs).r@ == old(regs).r@,
{
    match req {
        HostRequest::Read { .. } | HostRequest::Open { .. } => {
            regs.rsr = result;
        },
        _ => {},
    }
}

/// Whether `b` is well-formed UTF-8, as the standard library decides it.
pub uninterp spec fn is_utf8(b: Seq<u8>) -> bool;

/// Relies on `std::str::from_utf8`: it accepts exactly the well-formed UTF-8
/// byte strings, and every ASCII string is one.
#[verifier::external_body]
fn utf8_valid(b: &[u8]) -> (r: bool)
    ensures
        r == is_utf8(b@),
        (forall|i: int| 0 <= i < b@.len() ==> b@[i] < 128) ==> r,
{
    std::str::from_utf8(b).is_ok()
}

/// Checks the path of an open request; a path that is not UTF-8 fails with
/// `InvalidPath`.
pub fn check_path(path: &[u8]) -> (r: Result<(), VMError>)
    ensures
        r is Ok <==> is_utf8(path@),
        r is Err ==> r == Err::<(), VMError>(VMError::InvalidPath),
        (forall|i: int| 0 <= i < path@.len() ==> path@[i] < 128) ==> r is Ok,
{
    if utf8_valid(path) {
        Ok(())
    } else {
        Err(VMError::InvalidPath)
    }
}

} // verus!
