//! The instruction set: register identifiers, opcodes, operand types and
//! packed instruction signatures.
use vstd::prelude::*;

use crate::errors::Error;

verus! {

/// The high bit of an opcode byte: selects the alternate operand encoding.
pub const INST_ALT_MODE: u8 = 0x80;

/// Number of registers in each of the B, W, D and Q classes.
pub const REGISTER_MAX: u8 = 32;

/// Mask of the class bits of a register byte.
pub const REGISTER_TYPE_MASK: u8 = 0xE0;

/// Mask of the sub-prefix bits of an S-class register byte.
pub const SYSCALL_PREFIX_MASK: u8 = 0x18;

/// The class of a register, held in the top three bits of its byte.
#[derive(Clone, Copy, Debug, PartialEq, Eq, Structural)]
pub enum RegisterType {
    /// Extra special-purpose registers: only the zero register.
    X,
    /// Syscall registers.
    S,
    /// 8-bit registers.
    B,
    /// 16-bit registers.
    W,
    /// 32-bit registers.
    D,
    /// 64-bit registers.
    Q,
}

/// The sub-prefix of an S-class register.
#[derive(Clone, Copy, Debug, PartialEq, Eq, Structural)]
pub enum SyscallRegisterPrefix {
    /// The syscall index register.
    RSI,
    /// The syscall return register.
    RSR,
    /// The syscall argument registers.
    RSX,
}

/// The class bits of each register type.
pub open spec fn type_base(t: RegisterType) -> u8 {
    match t {
        RegisterType::X => 0x00,
        RegisterType::S => 0x20,
        RegisterType::B => 0x40,
        RegisterType::W => 0x80,
        RegisterType::D => 0xC0,
        RegisterType::Q => 0xE0,
    }
}

/// The sub-prefix bits of each S-class group.
pub open spec fn syscall_prefix_bits(p: SyscallRegisterPrefix) -> u8 {
    match p {
        SyscallRegisterPrefix::RSI => 0x08,
        SyscallRegisterPrefix::RSR => 0x10,
        SyscallRegisterPrefix::RSX => 0x00,
    }
}

impl RegisterType {
    /// The class bits of this register type.
    pub fn to_u8(self) -> (r: u8)
        ensures
            r == type_base(self),
    {
        match self {
            RegisterType::X => 0x00,
            RegisterType::S => 0x20,
            RegisterType::B => 0x40,
            RegisterType::W => 0x80,
            RegisterType::D => 0xC0,
            RegisterType::Q => 0xE0,
        }
    }
}

impl SyscallRegisterPrefix {
    /// The sub-prefix bits of this S-class group.
    pub fn to_u8(self) -> (r: u8)
        ensures
            r == syscall_prefix_bits(self),
    {
        match self {
            SyscallRegisterPrefix::RSI => 0x08,
            SyscallRegisterPrefix::RSR => 0x10,
            SyscallRegisterPrefix::RSX => 0x00,
        }
    }
}

/// The bytes that identify a register: `rxz`, `rs0..rs5`, `rsi`, `rsr`, and
/// index 0..31 of the B, W, D and Q classes.
pub open spec fn is_register_byte(b: u8) -> bool {
    ||| b == 0x00
    ||| 0x20 <= b <= 0x25
    ||| b == 0x28
    ||| b == 0x30
    ||| 0x40 <= b < 0x60
    ||| 0x80 <= b < 0xA0
    ||| 0xC0 <= b
}

/// The byte that `Register::new(t, x)` produces, or `None` where it fails.
pub open spec fn register_new_spec(t: RegisterType, x: u8) -> Option<u8> {
    match t {
        RegisterType::X => if x == 0 { Some(0x00u8) } else { None },
        RegisterType::S => if x < 6 { Some((0x20 + x) as u8) } else { None },
        _ => if x < 32 { Some((type_base(t) + x) as u8) } else { None },
    }
}

/// The bytes that some call of `Register::new` produces.
pub open spec fn producible_by_new(b: u8) -> bool {
    exists|t: RegisterType, x: u8| register_new_spec(t, x) == Some(b)
}

/// A register identifier: one byte, class in the top three bits, index below.
#[derive(Clone, Copy, Debug, PartialEq, Eq, Structural)]
pub struct Register(u8);

impl View for Register {
    type V = u8;

    closed spec fn view(&self) -> u8 {
        self.0
    }
}

impl Register {
    /// Every register value holds one of the register bytes.
    #[verifier::type_invariant]
    pub open spec fn inv(self) -> bool {
        is_register_byte(self@)
    }

    /// The zero register.
    pub fn rxz() -> (r: Register)
        ensures
            r@ == 0x00,
    {
        Register(0x00)
    }

    /// The syscall index register.
    pub fn rsi() -> (r: Register)
        ensures
            r@ == 0x28,
    {
        Register(0x28)
    }

    /// The syscall return register.
    pub fn rsr() -> (r: Register)
        ensures
            r@ == 0x30,
    {
        Register(0x30)
    }

    /// Syscall argument register 0.
    pub fn rs0() -> (r: Register)
        ensures
            r@ == 0x20,
    {
        Register(0x20)
    }

    /// Syscall argument register 1.
    pub fn rs1() -> (r: Register)
        ensures
            r@ == 0x21,
    {
        Register(0x21)
    }

    /// Syscall argument register 2.
    pub fn rs2() -> (r: Register)
        ensures
            r@ == 0x22,
    {
        Register(0x22)
    }

    /// Syscall argument register 3.
    pub fn rs3() -> (r: Register)
        ensures
            r@ == 0x23,
    {
        Register(0x23)
    }

    /// Syscall argument register 4.
    pub fn rs4() -> (r: Register)
        ensures
            r@ == 0x24,
    {
        Register(0x24)
    }

    /// Syscall argument register 5.
    pub fn rs5() -> (r: Register)
        ensures
            r@ == 0x25,
    {
        Register(0x25)
    }

    /// Builds the register of class `reg_type` with index `x`; fails where the
    /// index is beyond the class's limit.
    pub fn new(reg_type: RegisterType, x: u8) -> (r: Result<Register, Error>)
        ensures
            match register_new_spec(reg_type, x) {
                Some(b) => r matches Ok(reg) && reg@ == b,
                None => r == Err::<Register, Error>(Error::InvalidRegister),
            },
    {
        match reg_type {
            RegisterType::X => {
                if x == 0 {
                    Ok(Register(0x00))
                } else {
                    Err(Error::InvalidRegister)
                }
            },
            RegisterType::S => {
                if x < 6 {
                    Ok(Register(0x20 + x))
                } else {
                    Err(Error::InvalidRegister)
                }
            },
            _ => {
                if x < REGISTER_MAX {
                    Ok(Register(reg_type.to_u8() + x))
                } else {
                    Err(Error::InvalidRegister)
                }
            },
        }
    }

    /// Decodes a register byte; rejects every byte that names no register.
    pub fn try_from(value: u8) -> (r: Result<Register, Error>)
        ensures
            is_register_byte(value) ==> (r matches Ok(reg) && reg@ == value),
            !is_register_byte(value) ==> r == Err::<Register, Error>(Error::InvalidRegister),
    {
        let class = value & REGISTER_TYPE_MASK;
        let low = value & !REGISTER_TYPE_MASK;
        assert(class == value - value % 32 && low == value % 32) by (bit_vector)
            requires
                class == value & 0xE0u8,
                low == value & !0xE0u8,
        ;
        if class == 0x00 {
            if low == 0 {
                Ok(Register(value))
            } else {
                Err(Error::InvalidRegister)
            }
        } else if class == 0x20 {
            let prefix = value & SYSCALL_PREFIX_MASK;
            let idx = value & !(REGISTER_TYPE_MASK | SYSCALL_PREFIX_MASK);
            assert(prefix == (value % 32) - (value % 8) && idx == value % 8) by (bit_vector)
                requires
                    prefix == value & 0x18u8,
                    idx == value & !(0xE0u8 | 0x18u8),
            ;
            if prefix == SyscallRegisterPrefix::RSI.to_u8() || prefix
                == SyscallRegisterPrefix::RSR.to_u8() {
                if idx == 0 {
                    Ok(Register(value))
                } else {
                    Err(Error::InvalidRegister)
                }
            } else if prefix == SyscallRegisterPrefix::RSX.to_u8() && idx < 6 {
                Ok(Register(value))
            } else {
                Err(Error::InvalidRegister)
            }
        } else if class == 0x40 || class == 0x80 || class == 0xC0 || class == 0xE0 {
            Ok(Register(value))
        } else {
            Err(Error::InvalidRegister)
        }
    }

    /// The register's byte.
    pub fn to_u8(self) -> (r: u8)
        ensures
            r == self@,
            is_register_byte(r),
    {
        proof {
            use_type_invariant(&self);
        }
        self.0
    }

    /// The register's byte, zero-extended.
    pub fn to_u64(self) -> (r: u64)
        ensures
            r == self@ as u64,
            is_register_byte(r as u8),
            r < 256,
    {
        proof {
            use_type_invariant(&self);
        }
        self.0 as u64
    }

    /// Whether the register is of the X class.
    pub fn is_x(self) -> (r: bool)
        ensures
            r == (self@ < 0x20),
    {
        let v = self.0;
        let r = v & REGISTER_TYPE_MASK == 0x00;
        assert(r == (v < 0x20)) by (bit_vector)
            requires
                r == (v & 0xE0u8 == 0x00u8),
        ;
        r
    }

    /// Whether the register is of the S class.
    pub fn is_s(self) -> (r: bool)
        ensures
            r == (0x20 <= self@ < 0x40),
    {
        let v = self.0;
        let r = v & REGISTER_TYPE_MASK == 0x20;
        assert(r == (0x20 <= v < 0x40)) by (bit_vector)
            requires
                r == (v & 0xE0u8 == 0x20u8),
        ;
        r
    }

    /// Whether the register is one of the syscall argument registers.
    pub fn is_rsx(self) -> (r: bool)
        ensures
            r == (0x20 <= self@ < 0x28),
    {
        let v = self.0;
        let r = v & (REGISTER_TYPE_MASK | SYSCALL_PREFIX_MASK) == 0x20;
        assert(r == (0x20 <= v < 0x28)) by (bit_vector)
            requires
                r == (v & (0xE0u8 | 0x18u8) == 0x20u8),
        ;
        r
    }

    /// Whether the register is of the B class.
    pub fn is_b(self) -> (r: bool)
        ensures
            r == (0x40 <= self@ < 0x60),
    {
        let v = self.0;
        let r = v & REGISTER_TYPE_MASK == 0x40;
        assert(r == (0x40 <= v < 0x60)) by (bit_vector)
            requires
                r == (v & 0xE0u8 == 0x40u8),
        ;
        r
    }

    /// Whether the register is of the W class.
    pub fn is_w(self) -> (r: bool)
        ensures
            r == (0x80 <= self@ < 0xA0),
    {
        let v = self.0;
        let r = v & REGISTER_TYPE_MASK == 0x80;
        assert(r == (0x80 <= v < 0xA0)) by (bit_vector)
            requires
                r == (v & 0xE0u8 == 0x80u8),
        ;
        r
    }

    /// Whether the register is of the D class.
    pub fn is_d(self) -> (r: bool)
        ensures
            r == (0xC0 <= self@ < 0xE0),
    {
        let v = self.0;
        let r = v & REGISTER_TYPE_MASK == 0xC0;
        assert(r == (0xC0 <= v < 0xE0)) by (bit_vector)
            requires
                r == (v & 0xE0u8 == 0xC0u8),
        ;
        r
    }

    /// Whether the register is of the Q class.
    pub fn is_q(self) -> (r: bool)
        ensures
            r == (0xE0 <= self@),
    {
        let v = self.0;
        let r = v & REGISTER_TYPE_MASK == 0xE0;
        assert(r == (0xE0 <= v)) by (bit_vector)
            requires
                r == (v & 0xE0u8 == 0xE0u8),
        ;
        r
    }
}

/// Decoding the byte of a register built by `Register::new` gives back that
/// register.
pub proof fn lemma_new_round_trip(t: RegisterType, x: u8)
    requires
        register_new_spec(t, x) is Some,
    ensures
        is_register_byte(register_new_spec(t, x)->Some_0),
{
}

/// A byte is decoded as a register exactly when it is a register byte; the
/// bytes that `Register::new` produces are register bytes, and a register
/// byte that it does not produce is `rsi` or `rsr`.
pub proof fn lemma_register_bytes(b: u8)
    ensures
        producible_by_new(b) ==> is_register_byte(b),
        is_register_byte(b) && b != 0x28 && b != 0x30 ==> producible_by_new(b),
{
    if producible_by_new(b) {
        let (t, x) = choose|t: RegisterType, x: u8| register_new_spec(t, x) == Some(b);
        lemma_new_round_trip(t, x);
    }
    if is_register_byte(b) && b != 0x28 && b != 0x30 {
        if b == 0 {
            assert(register_new_spec(RegisterType::X, 0) == Some(b));
        } else if b < 0x40 {
            assert(register_new_spec(RegisterType::S, (b - 0x20) as u8) == Some(b));
        } else if b < 0x60 {
            assert(register_new_spec(RegisterType::B, (b - 0x40) as u8) == Some(b));
        } else if b < 0xA0 {
            assert(register_new_spec(RegisterType::W, (b - 0x80) as u8) == Some(b));
        } else if b < 0xE0 {
            assert(register_new_spec(RegisterType::D, (b - 0xC0) as u8) == Some(b));
        } else {
            assert(register_new_spec(RegisterType::Q, (b - 0xE0) as u8) == Some(b));
        }
    }
}


/// The largest opcode value; the high bit of an opcode byte is reserved.
pub const INST_MAX: u8 = 0x7F;

/// An instruction opcode.
#[derive(Clone, Copy, Debug, PartialEq, Eq, Structural)]
pub enum Instruction {
    NoOp,
    Move,
    MoveImm,
    MoveAddr,
    Clear,
    SetOne,
    Push,
    PushImm,
    Pop,
    StackLoad,
    MapString,
    Syscall0,
    Syscall1,
    Syscall2,
    Syscall3,
    Syscall4,
    Syscall5,
    Syscall6,
    Ret,
}

/// The opcode value of each instruction.
pub open spec fn opcode(i: Instruction) -> u8 {
    match i {
        Instruction::NoOp => 0x00,
        Instruction::Move => 0x01,
        Instruction::MoveImm => 0x02,
        Instruction::MoveAddr => 0x03,
        Instruction::Clear => 0x04,
        Instruction::SetOne => 0x05,
        Instruction::Push => 0x06,
        Instruction::PushImm => 0x07,
        Instruction::Pop => 0x08,
        Instruction::StackLoad => 0x09,
        Instruction::MapString => 0x0A,
        Instruction::Syscall0 => 0x10,
        Instruction::Syscall1 => 0x11,
        Instruction::Syscall2 => 0x12,
        Instruction::Syscall3 => 0x13,
        Instruction::Syscall4 => 0x14,
        Instruction::Syscall5 => 0x15,
        Instruction::Syscall6 => 0x16,
        Instruction::Ret => 0x20,
    }
}

/// The instruction whose opcode is the low seven bits of `b`, if any.
pub open spec fn decode_opcode(b: u8) -> Option<Instruction> {
    let op = b % 128;
    if op == 0x00 { Some(Instruction::NoOp) }
    else if op == 0x01 { Some(Instruction::Move) }
    else if op == 0x02 { Some(Instruction::MoveImm) }
    else if op == 0x03 { Some(Instruction::MoveAddr) }
    else if op == 0x04 { Some(Instruction::Clear) }
    else if op == 0x05 { Some(Instruction::SetOne) }
    else if op == 0x06 { Some(Instruction::Push) }
    else if op == 0x07 { Some(Instruction::PushImm) }
    else if op == 0x08 { Some(Instruction::Pop) }
    else if op == 0x09 { Some(Instruction::StackLoad) }
    else if op == 0x0A { Some(Instruction::MapString) }
    else if op == 0x10 { Some(Instruction::Syscall0) }
    else if op == 0x11 { Some(Instruction::Syscall1) }
    else if op == 0x12 { Some(Instruction::Syscall2) }
    else if op == 0x13 { Some(Instruction::Syscall3) }
    else if op == 0x14 { Some(Instruction::Syscall4) }
    else if op == 0x15 { Some(Instruction::Syscall5) }
    else if op == 0x16 { Some(Instruction::Syscall6) }
    else if op == 0x20 { Some(Instruction::Ret) }
    else { None }
}

/// The mnemonic of each instruction.
pub open spec fn inst_name(i: Instruction) -> Seq<u8> {
    match i {
        Instruction::NoOp => seq![78u8, 111, 79, 112],
        Instruction::Move => seq![77u8, 111, 118, 101],
        Instruction::MoveImm => seq![77u8, 111, 118, 101, 73, 109, 109],
        Instruction::MoveAddr => seq![77u8, 111, 118, 101, 65, 100, 100, 114],
        Instruction::Clear => seq![67u8, 108, 101, 97, 114],
        Instruction::SetOne => seq![83u8, 101, 116],
        Instruction::Push => seq![80u8, 117, 115, 104],
        Instruction::PushImm => seq![80u8, 117, 115, 104, 73, 109, 109],
        Instruction::Pop => seq![80u8, 111, 112],
        Instruction::StackLoad => seq![83u8, 116, 97, 99, 107, 76, 111, 97, 100],
        Instruction::MapString => seq![77u8, 97, 112],
        Instruction::Syscall0 => syscall_name(48),
        Instruction::Syscall1 => syscall_name(49),
        Instruction::Syscall2 => syscall_name(50),
        Instruction::Syscall3 => syscall_name(51),
        Instruction::Syscall4 => syscall_name(52),
        Instruction::Syscall5 => syscall_name(53),
        Instruction::Syscall6 => syscall_name(54),
        Instruction::Ret => seq![82u8, 101, 116],
    }
}

/// `Syscall` followed by the digit `d`.
pub open spec fn syscall_name(d: u8) -> Seq<u8> {
    seq![83u8, 121, 115, 99, 97, 108, 108, d]
}

impl Instruction {
    /// The opcode byte of this instruction, alternate-mode bit clear.
    pub fn to_u8(self) -> (r: u8)
        ensures
            r == opcode(self),
            r <= INST_MAX,
    {
        match self {
            Instruction::NoOp => 0x00,
            Instruction::Move => 0x01,
            Instruction::MoveImm => 0x02,
            Instruction::MoveAddr => 0x03,
            Instruction::Clear => 0x04,
            Instruction::SetOne => 0x05,
            Instruction::Push => 0x06,
            Instruction::PushImm => 0x07,
            Instruction::Pop => 0x08,
            Instruction::StackLoad => 0x09,
            Instruction::MapString => 0x0A,
            Instruction::Syscall0 => 0x10,
            Instruction::Syscall1 => 0x11,
            Instruction::Syscall2 => 0x12,
            Instruction::Syscall3 => 0x13,
            Instruction::Syscall4 => 0x14,
            Instruction::Syscall5 => 0x15,
            Instruction::Syscall6 => 0x16,
            Instruction::Ret => 0x20,
        }
    }

    /// Decodes an opcode byte, ignoring its alternate-mode bit.
    pub fn try_from(value: u8) -> (r: Result<Instruction, Error>)
        ensures
            match decode_opcode(value) {
                Some(i) => r == Ok::<Instruction, Error>(i),
                None => r == Err::<Instruction, Error>(Error::InvalidInstruction),
            },
    {
        let op = value & INST_MAX;
        assert(op == value % 128) by (bit_vector)
            requires
                op == value & 0x7Fu8,
        ;
        match op {
            0x00 => Ok(Instruction::NoOp),
            0x01 => Ok(Instruction::Move),
            0x02 => Ok(Instruction::MoveImm),
            0x03 => Ok(Instruction::MoveAddr),
            0x04 => Ok(Instruction::Clear),
            0x05 => Ok(Instruction::SetOne),
            0x06 => Ok(Instruction::Push),
            0x07 => Ok(Instruction::PushImm),
            0x08 => Ok(Instruction::Pop),
            0x09 => Ok(Instruction::StackLoad),
            0x0A => Ok(Instruction::MapString),
            0x10 => Ok(Instruction::Syscall0),
            0x11 => Ok(Instruction::Syscall1),
            0x12 => Ok(Instruction::Syscall2),
            0x13 => Ok(Instruction::Syscall3),
            0x14 => Ok(Instruction::Syscall4),
            0x15 => Ok(Instruction::Syscall5),
            0x16 => Ok(Instruction::Syscall6),
            0x20 => Ok(Instruction::Ret),
            _ => Err(Error::InvalidInstruction),
        }
    }

    /// The mnemonic of this instruction.
    pub fn name(self) -> (r: Vec<u8>)
        ensures
            r@ == inst_name(self),
    {
        let r = match self {
            Instruction::NoOp => vec![78u8, 111, 79, 112],
            Instruction::Move => vec![77u8, 111, 118, 101],
            Instruction::MoveImm => vec![77u8, 111, 118, 101, 73, 109, 109],
            Instruction::MoveAddr => vec![77u8, 111, 118, 101, 65, 100, 100, 114],
            Instruction::Clear => vec![67u8, 108, 101, 97, 114],
            Instruction::SetOne => vec![83u8, 101, 116],
            Instruction::Push => vec![80u8, 117, 115, 104],
            Instruction::PushImm => vec![80u8, 117, 115, 104, 73, 109, 109],
            Instruction::Pop => vec![80u8, 111, 112],
            Instruction::StackLoad => vec![83u8, 116, 97, 99, 107, 76, 111, 97, 100],
            Instruction::MapString => vec![77u8, 97, 112],
            Instruction::Syscall0 => vec![83u8, 121, 115, 99, 97, 108, 108, 48],
            Instruction::Syscall1 => vec![83u8, 121, 115, 99, 97, 108, 108, 49],
            Instruction::Syscall2 => vec![83u8, 121, 115, 99, 97, 108, 108, 50],
            Instruction::Syscall3 => vec![83u8, 121, 115, 99, 97, 108, 108, 51],
            Instruction::Syscall4 => vec![83u8, 121, 115, 99, 97, 108, 108, 52],
            Instruction::Syscall5 => vec![83u8, 121, 115, 99, 97, 108, 108, 53],
            Instruction::Syscall6 => vec![83u8, 121, 115, 99, 97, 108, 108, 54],
            Instruction::Ret => vec![82u8, 101, 116],
        };
        assert(r@ =~= inst_name(self));
        r
    }
}

/// The type of an operand. The value zero is left free to mean "no operand".
#[derive(Clone, Copy, Debug, PartialEq, Eq, Structural)]
pub enum OperandType {
    Register,
    Address,
    Lit64,
}

/// The two-bit code of each operand type.
pub open spec fn operand_code(t: OperandType) -> u8 {
    match t {
        OperandType::Register => 1,
        OperandType::Address => 2,
        OperandType::Lit64 => 3,
    }
}

/// The operand type with two-bit code `c`, if any.
pub open spec fn operand_of_code(c: u8) -> Option<OperandType> {
    if c == 1 {
        Some(OperandType::Register)
    } else if c == 2 {
        Some(OperandType::Address)
    } else if c == 3 {
        Some(OperandType::Lit64)
    } else {
        None
    }
}

impl OperandType {
    /// The two-bit code of this operand type.
    pub fn to_u8(self) -> (r: u8)
        ensures
            r == operand_code(self),
    {
        match self {
            OperandType::Register => 1,
            OperandType::Address => 2,
            OperandType::Lit64 => 3,
        }
    }
}

/// Field `i` (0 to 3) of a packed signature: bits `2i` and `2i + 1`.
pub open spec fn sig_field(s: u8, i: int) -> u8 {
    if i == 0 {
        s % 4
    } else if i == 1 {
        (s / 4) % 4
    } else if i == 2 {
        (s / 16) % 4
    } else {
        s / 64
    }
}

/// Up to four operand types, two bits each, the first in the lowest bits.
#[derive(Clone, Copy, Debug, PartialEq, Eq, Structural)]
pub struct InstructionSignature(u8);

impl View for InstructionSignature {
    type V = u8;

    closed spec fn view(&self) -> u8 {
        self.0
    }
}

impl InstructionSignature {
    /// The packed byte.
    pub fn to_u8(self) -> (r: u8)
        ensures
            r == self@,
    {
        self.0
    }

    /// The operand type in field `index`; the field must hold one.
    pub fn get(self, index: usize) -> (r: OperandType)
        requires
            index < 4,
            operand_of_code(sig_field(self@, index as int)) is Some,
        ensures
            operand_of_code(sig_field(self@, index as int)) == Some(r),
    {
        let s = self.0;
        let shift = (index as u8) * 2;
        let c = (s >> shift) & 0x03;
        assert(shift == 0 ==> c == s % 4) by (bit_vector)
            requires c == (s >> shift) & 3u8;
        assert(shift == 2 ==> c == (s / 4) % 4) by (bit_vector)
            requires c == (s >> shift) & 3u8;
        assert(shift == 4 ==> c == (s / 16) % 4) by (bit_vector)
            requires c == (s >> shift) & 3u8;
        assert(shift == 6 ==> c == s / 64) by (bit_vector)
            requires c == (s >> shift) & 3u8;
        if c == 1 {
            OperandType::Register
        } else if c == 2 {
            OperandType::Address
        } else {
            OperandType::Lit64
        }
    }

    /// The first operand type.
    pub fn fst(self) -> (r: OperandType)
        requires
            operand_of_code(sig_field(self@, 0)) is Some,
        ensures
            operand_of_code(sig_field(self@, 0)) == Some(r),
    {
        self.get(0)
    }

    /// The second operand type.
    pub fn snd(self) -> (r: OperandType)
        requires
            operand_of_code(sig_field(self@, 1)) is Some,
        ensures
            operand_of_code(sig_field(self@, 1)) == Some(r),
    {
        self.get(1)
    }

    /// The third operand type.
    pub fn thd(self) -> (r: OperandType)
        requires
            operand_of_code(sig_field(self@, 2)) is Some,
        ensures
            operand_of_code(sig_field(self@, 2)) == Some(r),
    {
        self.get(2)
    }

    /// The fourth operand type.
    pub fn frth(self) -> (r: OperandType)
        requires
            operand_of_code(sig_field(self@, 3)) is Some,
        ensures
            operand_of_code(sig_field(self@, 3)) == Some(r),
    {
        self.get(3)
    }
}

impl Instruction {
    /// The signature of one operand.
    pub fn sig1(op1: OperandType) -> (r: InstructionSignature)
        ensures
            sig_field(r@, 0) == operand_code(op1),
            sig_field(r@, 1) == 0,
            sig_field(r@, 2) == 0,
            sig_field(r@, 3) == 0,
    {
        InstructionSignature(op1.to_u8())
    }

    /// The signature of two operands.
    pub fn sig2(op1: OperandType, op2: OperandType) -> (r: InstructionSignature)
        ensures
            sig_field(r@, 0) == operand_code(op1),
            sig_field(r@, 1) == operand_code(op2),
            sig_field(r@, 2) == 0,
            sig_field(r@, 3) == 0,
    {
        let a = op1.to_u8();
        let b = op2.to_u8();
        let s = (b << 2) | a;
        assert(s % 4 == a && (s / 4) % 4 == b && (s / 16) % 4 == 0 && s / 64 == 0)
            by (bit_vector)
            requires
                a < 4,
                b < 4,
                s == (b << 2) | a,
        ;
        InstructionSignature(s)
    }

    /// The signature of three operands.
    pub fn sig3(op1: OperandType, op2: OperandType, op3: OperandType) -> (r: InstructionSignature)
        ensures
            sig_field(r@, 0) == operand_code(op1),
            sig_field(r@, 1) == operand_code(op2),
            sig_field(r@, 2) == operand_code(op3),
            sig_field(r@, 3) == 0,
    {
        let a = op1.to_u8();
        let b = op2.to_u8();
        let c = op3.to_u8();
        let s = (c << 4) | (b << 2) | a;
        assert(s % 4 == a && (s / 4) % 4 == b && (s / 16) % 4 == c && s / 64 == 0)
            by (bit_vector)
            requires
                a < 4,
                b < 4,
                c < 4,
                s == (c << 4) | (b << 2) | a,
        ;
        InstructionSignature(s)
    }

    /// The signature of four operands.
    pub fn sig4(op1: OperandType, op2: OperandType, op3: OperandType, op4: OperandType) -> (r:
        InstructionSignature)
        ensures
            sig_field(r@, 0) == operand_code(op1),
            sig_field(r@, 1) == operand_code(op2),
            sig_field(r@, 2) == operand_code(op3),
            sig_field(r@, 3) == operand_code(op4),
    {
        let a = op1.to_u8();
        let b = op2.to_u8();
        let c = op3.to_u8();
        let d = op4.to_u8();
        let s = (d << 6) | (c << 4) | (b << 2) | a;
        assert(s % 4 == a && (s / 4) % 4 == b && (s / 16) % 4 == c && s / 64 == d)
            by (bit_vector)
            requires
                a < 4,
                b < 4,
                c < 4,
                d < 4,
                s == (d << 6) | (c << 4) | (b << 2) | a,
        ;
        InstructionSignature(s)
    }
}

} // verus!
