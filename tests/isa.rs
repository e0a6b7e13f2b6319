use dream::{Error, Instruction, InstructionSignature, OperandType, Register, RegisterType};

fn four() -> InstructionSignature {
    Instruction::sig4(
        OperandType::Lit64,
        OperandType::Register,
        OperandType::Address,
        OperandType::Lit64,
    )
}

#[test]
fn sig1() {
    let sig = Instruction::sig1(OperandType::Address);
    assert_eq!(sig.to_u8(), 0b00000010);
}

#[test]
fn sig2() {
    let sig = Instruction::sig2(OperandType::Address, OperandType::Address);
    assert_eq!(sig.to_u8(), 0b00001010);
}

#[test]
fn sig3() {
    let sig = Instruction::sig3(OperandType::Address, OperandType::Address, OperandType::Address);
    assert_eq!(sig.to_u8(), 0b00101010);
}

#[test]
fn sig4() {
    let sig = Instruction::sig4(
        OperandType::Address,
        OperandType::Address,
        OperandType::Address,
        OperandType::Address,
    );
    assert_eq!(sig.to_u8(), 0b10101010);
}

#[test]
fn sig_macro() {
    let sig1 = Instruction::sig1(OperandType::Address);
    let sig2 = Instruction::sig2(OperandType::Address, OperandType::Address);
    let sig3 =
        Instruction::sig3(OperandType::Address, OperandType::Address, OperandType::Address);
    let sig4 = Instruction::sig4(
        OperandType::Address,
        OperandType::Address,
        OperandType::Address,
        OperandType::Address,
    );
    assert_eq!(sig1.to_u8(), 0b00000010);
    assert_eq!(sig2.to_u8(), 0b00001010);
    assert_eq!(sig3.to_u8(), 0b00101010);
    assert_eq!(sig4.to_u8(), 0b10101010);
}

#[test]
fn fst() {
    assert_eq!(four().fst(), OperandType::Lit64);
}

#[test]
fn snd() {
    assert_eq!(four().snd(), OperandType::Register);
}

#[test]
fn thd() {
    assert_eq!(four().thd(), OperandType::Address);
}

#[test]
fn frth() {
    assert_eq!(four().frth(), OperandType::Lit64);
}

#[test]
fn get() {
    let sig = four();
    assert_eq!(sig.get(0), OperandType::Lit64);
    assert_eq!(sig.get(1), OperandType::Register);
    assert_eq!(sig.get(2), OperandType::Address);
    assert_eq!(sig.get(3), OperandType::Lit64);
}

#[test]
fn sr0() {
    let result = Register::new(RegisterType::S, 0);
    assert_eq!(result, Ok(Register::rs0()));
}

#[test]
fn sr1() {
    let result = Register::new(RegisterType::S, 1);
    assert_eq!(result, Ok(Register::rs1()));
}

#[test]
fn sr2() {
    let result = Register::new(RegisterType::S, 2);
    assert_eq!(result, Ok(Register::rs2()));
}

#[test]
fn sr3() {
    let result = Register::new(RegisterType::S, 3);
    assert_eq!(result, Ok(Register::rs3()));
}

#[test]
fn sr4() {
    let result = Register::new(RegisterType::S, 4);
    assert_eq!(result, Ok(Register::rs4()));
}

#[test]
fn sr5() {
    let result = Register::new(RegisterType::S, 5);
    assert_eq!(result, Ok(Register::rs5()));
}

#[test]
fn sr6() {
    let result = Register::new(RegisterType::S, 6);
    assert!(matches!(result, Err(Error::InvalidRegister)));
}

#[test]
fn br0() {
    let result = Register::new(RegisterType::B, 0);
    assert!(matches!(result, Ok(r) if r.to_u8() == 0x40));
}

#[test]
fn br31() {
    let result = Register::new(RegisterType::B, 31);
    assert!(matches!(result, Ok(r) if r.to_u8() == 0x5F));
}

#[test]
fn is_x() {
    let x = Register::new(RegisterType::X, 0).unwrap();
    let b = Register::new(RegisterType::B, 0).unwrap();
    assert!(x.is_x());
    assert!(!b.is_x());
}

#[test]
fn is_s() {
    let s = Register::new(RegisterType::S, 0).unwrap();
    let b = Register::new(RegisterType::B, 0).unwrap();
    assert!(s.is_s());
    assert!(!b.is_s());
}

#[test]
fn is_rsx() {
    let s = Register::new(RegisterType::S, 0).unwrap();
    let b = Register::new(RegisterType::B, 0).unwrap();
    let rsi = Register::rsi();
    assert!(s.is_rsx());
    assert!(!b.is_rsx());
    assert!(!rsi.is_rsx());
}

#[test]
fn is_b() {
    let b = Register::new(RegisterType::B, 0).unwrap();
    let w = Register::new(RegisterType::W, 0).unwrap();
    assert!(b.is_b());
    assert!(!w.is_b());
}

#[test]
fn is_w() {
    let w = Register::new(RegisterType::W, 0).unwrap();
    let b = Register::new(RegisterType::B, 0).unwrap();
    assert!(w.is_w());
    assert!(!b.is_w());
}

#[test]
fn is_d() {
    let d = Register::new(RegisterType::D, 0).unwrap();
    let b = Register::new(RegisterType::B, 0).unwrap();
    assert!(d.is_d());
    assert!(!b.is_d());
}

#[test]
fn is_q() {
    let q = Register::new(RegisterType::Q, 0).unwrap();
    let b = Register::new(RegisterType::B, 0).unwrap();
    assert!(q.is_q());
    assert!(!b.is_q());
}

fn producible(b: u8) -> bool {
    let classes = [
        RegisterType::X,
        RegisterType::S,
        RegisterType::B,
        RegisterType::W,
        RegisterType::D,
        RegisterType::Q,
    ];
    for t in classes {
        for x in 0..=255u8 {
            if let Ok(r) = Register::new(t, x) {
                if r.to_u8() == b {
                    return true;
                }
            }
        }
    }
    false
}

#[test]
fn new_registers_round_trip() {
    let classes = [
        RegisterType::X,
        RegisterType::S,
        RegisterType::B,
        RegisterType::W,
        RegisterType::D,
        RegisterType::Q,
    ];
    for t in classes {
        for x in 0..=255u8 {
            if let Ok(r) = Register::new(t, x) {
                assert_eq!(Register::try_from(r.to_u8()), Ok(r));
            }
        }
    }
}

#[test]
fn register_bytes_accepted_exactly() {
    for b in 0..=255u8 {
        let decoded = Register::try_from(b);
        if producible(b) || b == 0x28 || b == 0x30 {
            assert_eq!(decoded.map(|r| r.to_u8()), Ok(b));
        } else {
            assert_eq!(decoded, Err(Error::InvalidRegister));
        }
    }
}

#[test]
fn x_class_rejects_nonzero_index() {
    assert_eq!(Register::new(RegisterType::X, 1), Err(Error::InvalidRegister));
    assert_eq!(Register::new(RegisterType::Q, 32), Err(Error::InvalidRegister));
    assert_eq!(Register::try_from(0x01), Err(Error::InvalidRegister));
    assert_eq!(Register::try_from(0x26), Err(Error::InvalidRegister));
    assert_eq!(Register::try_from(0x38), Err(Error::InvalidRegister));
    assert_eq!(Register::try_from(0x60), Err(Error::InvalidRegister));
}

#[test]
fn register_names() {
    assert_eq!(Register::rxz().name(), b"rxz".to_vec());
    assert_eq!(Register::rsi().name(), b"rsi".to_vec());
    assert_eq!(Register::rsr().name(), b"rsr".to_vec());
    assert_eq!(Register::rs5().name(), b"rs5".to_vec());
    assert_eq!(Register::new(RegisterType::B, 31).unwrap().name(), b"rb31".to_vec());
    assert_eq!(Register::new(RegisterType::W, 7).unwrap().name(), b"rw7".to_vec());
    assert_eq!(Register::new(RegisterType::D, 0).unwrap().name(), b"rd0".to_vec());
    assert_eq!(Register::new(RegisterType::Q, 12).unwrap().name(), b"rq12".to_vec());
}

#[test]
fn opcodes_decode_with_alt_bit() {
    assert_eq!(Instruction::try_from(0x05), Ok(Instruction::SetOne));
    assert_eq!(Instruction::try_from(0x85), Ok(Instruction::SetOne));
    assert_eq!(Instruction::try_from(0x20), Ok(Instruction::Ret));
    assert_eq!(Instruction::try_from(0x0B), Err(Error::InvalidInstruction));
    assert_eq!(Instruction::MapString.to_u8(), 0x0A);
    assert_eq!(Instruction::Syscall6.name(), b"Syscall6".to_vec());
}
