use dream::{
    BlockBuilder, Builder, Error, Instruction, Operand, OutputType, ProcedureBuilder, Register,
    RegisterType, Version, INST_ALT_MODE,
};

fn q0() -> Register {
    Register::new(RegisterType::Q, 0).unwrap()
}

fn block_bytes(f: impl FnOnce(&mut BlockBuilder)) -> Vec<u8> {
    let mut b = BlockBuilder::new();
    f(&mut b);
    b.code().clone()
}

fn le(v: u64) -> Vec<u8> {
    v.to_le_bytes().to_vec()
}

#[test]
fn write_magic() {
    let builder = Builder::new(Version::from(0), OutputType::Bin);
    let mut output: Vec<u8> = Vec::new();
    let result = builder.write_magic(&mut output);
    assert!(result.is_ok());
    assert_eq!(output.as_slice(), b"DREAM000");
}

#[test]
fn write_header_bin() {
    let builder = Builder::new(Version::from(0), OutputType::Bin);
    let mut output: Vec<u8> = Vec::new();
    let result = builder.write_header(&mut output);
    assert!(result.is_ok());
    assert_eq!(output.as_slice(), b"DREAM000OUTT\x00\x00\x00\x00");
}

#[test]
fn write_header_lib() {
    let builder = Builder::new(Version::from(0), OutputType::Lib);
    let mut output: Vec<u8> = Vec::new();
    let result = builder.write_header(&mut output);
    assert!(result.is_ok());
    assert_eq!(output.as_slice(), b"DREAM000OUTT\x01\x00\x00\x00");
}

#[test]
fn builder_write_text_section() {
    let mut builder = Builder::new(Version::from(0), OutputType::Bin);
    let mut output: Vec<u8> = Vec::new();
    builder.add_string(b"hello");
    builder.add_string(b"world!");
    builder.add_string(b"");
    let result = builder.write_text_section(&mut output);
    assert!(result.is_ok());
    let mut expected: Vec<u8> = b"TEXT\0\0\0\0".to_vec();
    expected.extend(le(21 + 22 + 16));
    expected.extend(le(5));
    expected.extend(b"hello");
    expected.extend([0u8; 8]);
    expected.extend(le(6));
    expected.extend(b"world!");
    expected.extend([0u8; 8]);
    expected.extend(le(0));
    expected.extend([0u8; 8]);
    assert_eq!(output, expected);
    assert_eq!(result, Ok(expected.len()));
}

#[test]
fn dream_builder_write_text_section() {
    let mut builder = Builder::new(Version::from(0), OutputType::Bin);
    let mut output: Vec<u8> = Vec::new();
    assert_eq!(builder.add_string(b"hello"), 8);
    assert_eq!(builder.add_string(b"world!"), 8 + 21);
    assert_eq!(builder.add_string(b""), 8 + 21 + 22);
    let result = builder.write_text_section(&mut output);
    assert!(result.is_ok());
    assert_eq!(&output[8..16], &le(59)[..]);
}

#[test]
fn write_procedure() {
    let mut builder = Builder::new(Version::from(0), OutputType::Bin);
    builder.procedure(|proc: &mut ProcedureBuilder| {
        proc.body(|block: &mut BlockBuilder| {
            block.emit_move(Operand::reg(q0()), Operand::lit64(69), None).unwrap();
            block.emit_move(Operand::reg(Register::rsi()), Operand::lit64(1), None).unwrap();
        })
    });
    let mut expected = vec![Instruction::MoveImm.to_u8(), 0xE0];
    expected.extend(le(69));
    expected.extend([Instruction::SetOne.to_u8(), 0x28, Instruction::Ret.to_u8()]);
    assert_eq!(builder.code(), &expected);
}

#[test]
fn write_hello_world_procedure() {
    let mut builder = Builder::new(Version::from(0), OutputType::Bin);
    builder.procedure(|proc: &mut ProcedureBuilder| {
        proc.body(|block: &mut BlockBuilder| {
            block.emit_move(Operand::reg(Register::rsi()), Operand::lit64(1), None).unwrap();
            block
                .emit_move(
                    Operand::reg(Register::new(RegisterType::S, 0).unwrap()),
                    Operand::lit64(2),
                    None,
                )
                .unwrap();
            block.emit_map(Register::new(RegisterType::S, 1).unwrap(), 0).unwrap();
            block
                .emit_move(
                    Operand::reg(Register::new(RegisterType::S, 2).unwrap()),
                    Operand::lit64(11),
                    None,
                )
                .unwrap();
        })
    });
    assert_eq!(builder.code().len(), 2 + 10 + 10 + 10 + 1);
    assert_eq!(*builder.code().last().unwrap(), 0x20);
}

fn hello_world() -> (Builder, usize, usize) {
    let mut builder = Builder::new(Version::from(0), OutputType::Bin);
    let str_idx = builder.add_string(b"Hello world!\n");
    let proc_idx = builder.procedure(|proc: &mut ProcedureBuilder| {
        proc.body(|block: &mut BlockBuilder| {
            block.emit_move(Operand::reg(Register::rsi()), Operand::lit64(1), None).unwrap();
            block.emit_move(Operand::reg(Register::rs0()), Operand::lit64(2), None).unwrap();
            block.emit_map(Register::rs1(), str_idx as u64).unwrap();
            block.emit_move(Operand::reg(Register::rs2()), Operand::lit64(13), None).unwrap();
            block.emit_syscall(3).unwrap();
            block.emit_ret();
        })
    });
    builder.set_entry(proc_idx);
    (builder, str_idx, proc_idx)
}

#[test]
fn write_dream() {
    let (builder, str_idx, proc_idx) = hello_world();
    assert_eq!(str_idx, 8);
    assert_eq!(proc_idx, 0);
    let mut output: Vec<u8> = Vec::new();
    let result = builder.write_dream(&mut output);
    assert!(result.is_ok());

    let mut code = vec![0x05, 0x28, 0x02, 0x20];
    code.extend(le(2));
    code.extend([0x0A, 0x21]);
    code.extend(le(8));
    code.extend([0x02, 0x22]);
    code.extend(le(13));
    code.extend([0x13, 0x20]);
    assert_eq!(code.len(), 34);

    let mut expected: Vec<u8> = b"DREAM000OUTT\0\0\0\0TEXT\0\0\0\0".to_vec();
    expected.extend(le(16 + 13));
    expected.extend(le(13));
    expected.extend(b"Hello world!\n");
    expected.extend([0u8; 8]);
    expected.extend(b"CODE\0\0\0\0");
    expected.extend(le(34));
    expected.extend(le(0));
    expected.extend(code);
    assert_eq!(output, expected);
}

#[test]
fn add_string_deduplicates() {
    let mut builder = Builder::new(Version::from(0), OutputType::Bin);
    let a = builder.add_string(b"abc");
    let b = builder.add_string(b"de");
    assert_eq!(builder.add_string(b"abc"), a);
    assert_eq!(builder.add_string(b"de"), b);
    assert_eq!(a, 8);
    assert_eq!(b, 8 + 8 + 3 + 8);
    assert_ne!(a, b);
    let mut out: Vec<u8> = Vec::new();
    builder.write_text_section(&mut out).unwrap();
    assert_eq!(out.len(), 16 + 19 + 18);
}

#[test]
fn move_specialisation() {
    let clear = block_bytes(|b| b.emit_move(Operand::reg(q0()), Operand::lit64(0), None).unwrap());
    assert_eq!(clear, vec![Instruction::Clear.to_u8(), 0xE0]);
    let set = block_bytes(|b| b.emit_move(Operand::reg(q0()), Operand::lit64(1), None).unwrap());
    assert_eq!(set, vec![Instruction::SetOne.to_u8(), 0xE0]);
    let imm = block_bytes(|b| b.emit_move(Operand::reg(q0()), Operand::lit64(42), None).unwrap());
    let mut expected = vec![Instruction::MoveImm.to_u8(), 0xE0];
    expected.extend(le(42));
    assert_eq!(imm, expected);
}

#[test]
fn move_forms() {
    let rr = block_bytes(|b| {
        b.emit_move(Operand::reg(q0()), Operand::reg(Register::rsr()), None).unwrap()
    });
    assert_eq!(rr, vec![0x01, 0xE0, 0x30]);
    let ra = block_bytes(|b| b.emit_move(Operand::reg(q0()), Operand::addr(7), None).unwrap());
    let mut e = vec![0x03, 0xE0];
    e.extend(le(7));
    assert_eq!(ra, e);
    let ar = block_bytes(|b| b.emit_move(Operand::addr(9), Operand::reg(q0()), None).unwrap());
    let mut e = vec![0x01 | INST_ALT_MODE];
    e.extend(le(9));
    e.push(0xE0);
    assert_eq!(ar, e);
    let aa = block_bytes(|b| b.emit_move(Operand::addr(1), Operand::addr(2), None).unwrap());
    let mut e = vec![0x83];
    e.extend(le(1));
    e.extend(le(2));
    e.extend(le(8));
    assert_eq!(aa, e);
    let sized =
        block_bytes(|b| b.emit_move(Operand::addr(1), Operand::addr(2), Some(3)).unwrap());
    assert_eq!(&sized[17..], &le(3)[..]);
    let a0 = block_bytes(|b| b.emit_move(Operand::addr(5), Operand::lit64(0), None).unwrap());
    let mut e = vec![0x84];
    e.extend(le(5));
    assert_eq!(a0, e);
    let a1 = block_bytes(|b| b.emit_move(Operand::addr(5), Operand::lit64(1), None).unwrap());
    assert_eq!(a1[0], 0x85);
    let ai = block_bytes(|b| b.emit_move(Operand::addr(5), Operand::lit64(300), None).unwrap());
    assert_eq!(ai.len(), 17);
    assert_eq!(ai[0], 0x82);
}

#[test]
fn move_to_immediate_is_rejected() {
    let mut b = BlockBuilder::new();
    assert_eq!(
        b.emit_move(Operand::lit64(1), Operand::reg(q0()), None),
        Err(Error::BadOperandType)
    );
    assert!(b.code().is_empty());
}

#[test]
fn push_pop_and_syscalls() {
    let bytes = block_bytes(|b| {
        b.emit_push(Operand::reg(q0()));
        b.emit_push(Operand::addr(4));
        b.emit_push(Operand::lit64(5));
        b.emit_pop(q0());
        b.emit_clear(q0());
        b.emit_set(q0());
        b.emit_stack_load(q0(), 16);
        b.emit_syscall(0).unwrap();
        b.emit_syscall(6).unwrap();
    });
    let mut e = vec![0x06, 0xE0, 0x86];
    e.extend(le(4));
    e.push(0x07);
    e.extend(le(5));
    e.extend([0x08, 0xE0, 0x04, 0xE0, 0x05, 0xE0, 0x09, 0xE0]);
    e.extend(le(16));
    e.extend([0x10, 0x16]);
    assert_eq!(bytes, e);
    let mut b = BlockBuilder::new();
    assert_eq!(b.emit_syscall(7), Err(Error::TooManyArgsForSyscall));
    assert!(b.code().is_empty());
}

#[test]
fn body_always_ends_in_ret() {
    let mut p = ProcedureBuilder::new();
    p.body(|_b: &mut BlockBuilder| {});
    assert_eq!(p.code(), &vec![0x20]);
    p.body(|b: &mut BlockBuilder| b.emit_ret());
    assert_eq!(p.code(), &vec![0x20, 0x20]);
    p.body(|b: &mut BlockBuilder| {
        b.emit_move(Operand::reg(q0()), Operand::reg(Register::rs0()), None).unwrap()
    });
    assert_eq!(p.code(), &vec![0x20, 0x20, 0x01, 0xE0, 0x20, 0x20]);
}

#[test]
fn procedures_are_placed_one_after_another() {
    let mut builder = Builder::new(Version::from(3), OutputType::Lib);
    let first = builder.procedure(|p: &mut ProcedureBuilder| p.body(|b| b.emit_clear(q0())));
    let second = builder.procedure(|p: &mut ProcedureBuilder| p.body(|_b| {}));
    assert_eq!(first, 0);
    assert_eq!(second, 3);
    assert_eq!(builder.code(), &vec![0x04, 0xE0, 0x20, 0x20]);
}

#[test]
fn output_types() {
    assert_eq!(OutputType::try_from(0), Ok(OutputType::Bin));
    assert_eq!(OutputType::try_from(1), Ok(OutputType::Lib));
    assert_eq!(OutputType::try_from(2), Err(Error::InvalidOutputType));
    assert_eq!(OutputType::Lib.as_bytes(), [1, 0, 0, 0]);
}

#[test]
fn empty_procedure_gets_ret() {
    let mut builder = Builder::new(Version::from(0), OutputType::Bin);
    let first = builder.procedure(|_p: &mut ProcedureBuilder| {});
    assert_eq!(first, 0);
    assert_eq!(builder.code(), &vec![0x20]);
}

#[test]
fn file_bytes_match_written_file() {
    let (builder, _, _) = hello_world();
    let mut out: Vec<u8> = Vec::new();
    builder.write_dream(&mut out).unwrap();
    assert_eq!(builder.file_bytes(), out);
    assert_eq!(&out[61 + 8..61 + 16], &le(34)[..]);
}
