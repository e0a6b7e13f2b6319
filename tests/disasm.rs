use dream::{
    disassemble, BlockBuilder, Builder, Disassembler, Error, Operand, OutputType,
    ProcedureBuilder, Register, RegisterType, Version,
};

fn listing_of(bytes: Vec<u8>) -> (String, Result<(), Error>) {
    let mut d = Disassembler::new(bytes);
    let r = d.disassemble();
    (String::from_utf8(d.listing().clone()).unwrap(), r)
}

fn file_of(builder: &Builder) -> Vec<u8> {
    let mut out: Vec<u8> = Vec::new();
    builder.write_dream(&mut out).unwrap();
    out
}

#[test]
fn empty_program_round_trip() {
    let builder = Builder::new(Version::from(0), OutputType::Bin);
    let bytes = file_of(&builder);
    let mut expected: Vec<u8> = b"DREAM000OUTT\0\0\0\0TEXT\0\0\0\0".to_vec();
    expected.extend([0u8; 8]);
    expected.extend(b"CODE\0\0\0\0");
    expected.extend([0u8; 16]);
    assert_eq!(bytes, expected);
    let (text, r) = listing_of(bytes);
    assert_eq!(r, Ok(()));
    assert_eq!(
        text,
        "#Version 000\n#OutputType Bin\n\n00000010  TEXT:\n\n00000020  CODE:\n"
    );
}

#[test]
fn hello_world_listing() {
    let mut builder = Builder::new(Version::from(10), OutputType::Bin);
    let s = builder.add_string(b"Hello world!\n");
    let p = builder.procedure(|proc: &mut ProcedureBuilder| {
        proc.body(|b: &mut BlockBuilder| {
            b.emit_move(Operand::reg(Register::rsi()), Operand::lit64(1), None).unwrap();
            b.emit_move(Operand::reg(Register::rs0()), Operand::lit64(2), None).unwrap();
            b.emit_map(Register::rs1(), s as u64).unwrap();
            b.emit_move(Operand::reg(Register::rs2()), Operand::lit64(13), None).unwrap();
            b.emit_syscall(3).unwrap();
        })
    });
    builder.set_entry(p);
    let (text, r) = listing_of(file_of(&builder));
    assert_eq!(r, Ok(()));
    let expected = [
        "#Version 00A\n",
        "#OutputType Bin\n",
        "\n",
        "00000010  TEXT:\n",
        "00000020      \"Hello world!\\n\"\n",
        "\n",
        "0000003D  CODE:\n",
        "ENTRY:\n",
        "00000055      Set         rsi\n",
        "00000057      MoveImm     rs0, $2\n",
        "00000061      Map         rs1, $8\n",
        "0000006B      MoveImm     rs2, $13\n",
        "00000075      Syscall3    \n",
        "00000076      Ret         \n",
    ]
    .join("");
    assert_eq!(text, expected);
}

#[test]
fn move_specialisation_listing() {
    let q0 = Register::new(RegisterType::Q, 0).unwrap();
    let mut builder = Builder::new(Version::from(0), OutputType::Lib);
    builder.procedure(|proc: &mut ProcedureBuilder| {
        proc.body(|b: &mut BlockBuilder| {
            b.emit_move(Operand::reg(q0), Operand::lit64(0), None).unwrap();
            b.emit_move(Operand::reg(q0), Operand::lit64(1), None).unwrap();
            b.emit_move(Operand::reg(q0), Operand::lit64(42), None).unwrap();
        })
    });
    let (text, r) = listing_of(file_of(&builder));
    assert_eq!(r, Ok(()));
    assert!(text.contains("#OutputType Lib\n"));
    assert!(text.contains("Clear       rq0\n"));
    assert!(text.contains("Set         rq0\n"));
    assert!(text.contains("MoveImm     rq0, $42\n"));
}

#[test]
fn every_operand_form_lists() {
    let q0 = Register::new(RegisterType::Q, 0).unwrap();
    let b3 = Register::new(RegisterType::B, 3).unwrap();
    let mut builder = Builder::new(Version::from(0), OutputType::Bin);
    builder.procedure(|proc: &mut ProcedureBuilder| {
        proc.body(|b: &mut BlockBuilder| {
            b.emit_move(Operand::reg(q0), Operand::reg(b3), None).unwrap();
            b.emit_move(Operand::reg(q0), Operand::addr(16), None).unwrap();
            b.emit_move(Operand::addr(24), Operand::reg(q0), None).unwrap();
            b.emit_move(Operand::addr(1), Operand::addr(2), Some(4)).unwrap();
            b.emit_move(Operand::addr(7), Operand::lit64(0), None).unwrap();
            b.emit_move(Operand::addr(7), Operand::lit64(99), None).unwrap();
            b.emit_push(Operand::addr(5));
            b.emit_push(Operand::lit64(6));
            b.emit_pop(b3);
            b.emit_stack_load(q0, 8);
            b.emit_syscall(0).unwrap();
        })
    });
    let (text, r) = listing_of(file_of(&builder));
    assert_eq!(r, Ok(()));
    for line in [
        "Move        rq0, rb3\n",
        "MoveAddr    rq0, [16]\n",
        "Move        [24], rq0\n",
        "MoveAddr    [1], [2], $4\n",
        "Clear       [7]\n",
        "MoveImm     [7], $99\n",
        "Push        [5]\n",
        "PushImm     $6\n",
        "Pop         rb3\n",
        "StackLoad   rq0, [stk+8]\n",
        "Syscall0    \n",
        "Ret         \n",
    ] {
        assert!(text.contains(line), "missing {line:?} in {text}");
    }
}

fn header() -> Vec<u8> {
    b"DREAM000OUTT\0\0\0\0".to_vec()
}

fn empty_text() -> Vec<u8> {
    let mut t = b"TEXT\0\0\0\0".to_vec();
    t.extend([0u8; 8]);
    t
}

#[test]
fn duplicate_text_sections_fail() {
    let mut bytes = header();
    bytes.extend(empty_text());
    bytes.extend(empty_text());
    let (text, r) = listing_of(bytes);
    assert_eq!(r, Err(Error::DisassembleFailure));
    assert_eq!(text, "#Version 000\n#OutputType Bin\n\n00000010  TEXT:\n\n");
}

#[test]
fn duplicate_text_sections_written_before_failure() {
    let mut bytes = header();
    bytes.extend(empty_text());
    bytes.extend(empty_text());
    let mut out: Vec<u8> = Vec::new();
    assert_eq!(disassemble(bytes, &mut out), Err(Error::DisassembleFailure));
    assert!(String::from_utf8(out).unwrap().ends_with("00000010  TEXT:\n\n"));
}

#[test]
fn structural_errors() {
    assert_eq!(listing_of(b"DREAX000".to_vec()).1, Err(Error::DisassembleFailure));
    assert_eq!(listing_of(b"DREAM0!0OUTT\0\0\0\0".to_vec()).1, Err(Error::DisassembleFailure));
    let (text, r) = listing_of(b"DREAM000OUTT\x02\0\0\0".to_vec());
    assert_eq!(r, Err(Error::DisassembleFailure));
    assert_eq!(text, "#Version 000\n");
    let mut bad_tag = header();
    bad_tag.extend(b"JUNK\0\0\0\0");
    assert_eq!(listing_of(bad_tag).1, Err(Error::DisassembleFailure));
    let mut bad_pad = header();
    bad_pad.extend(b"TEXT\0\0\x01\0");
    assert_eq!(listing_of(bad_pad).1, Err(Error::DisassembleFailure));
    assert_eq!(listing_of(header()).1, Ok(()));
}

fn code_section(code: &[u8], size: u64, entry: u64) -> Vec<u8> {
    let mut bytes = header();
    bytes.extend(b"CODE\0\0\0\0");
    bytes.extend(size.to_le_bytes());
    bytes.extend(entry.to_le_bytes());
    bytes.extend(code);
    bytes
}

#[test]
fn code_errors() {
    assert_eq!(listing_of(code_section(&[0x0B], 1, 0)).1, Err(Error::DisassembleFailure));
    assert_eq!(listing_of(code_section(&[0x88, 0xE0], 2, 0)).1, Err(Error::InvalidInstruction));
    assert_eq!(listing_of(code_section(&[0x08, 0x61], 2, 0)).1, Err(Error::DisassembleFailure));
    assert_eq!(listing_of(code_section(&[0x08, 0xE0], 1, 0)).1, Err(Error::DisassembleFailure));
    assert_eq!(listing_of(code_section(&[0x20], 2, 0)).1, Err(Error::DisassembleFailure));
    let (text, r) = listing_of(code_section(&[0x00, 0x20], 2, 1));
    assert_eq!(r, Ok(()));
    assert!(text.ends_with("00000028      NoOp        \nENTRY:\n00000029      Ret         \n"));
}

#[test]
fn text_escapes() {
    let mut builder = Builder::new(Version::from(0), OutputType::Bin);
    builder.add_string(b"a\t\"\\\x01\xff");
    let (text, r) = listing_of(file_of(&builder));
    assert_eq!(r, Ok(()));
    assert!(text.contains("\"a\\t\\\"\\\\\\x01\\xff\"\n"));
}

#[test]
fn inconsistent_text_size_fails() {
    let mut bytes = header();
    bytes.extend(b"TEXT\0\0\0\0");
    bytes.extend(10u64.to_le_bytes());
    bytes.extend(3u64.to_le_bytes());
    bytes.extend(b"abc");
    bytes.extend([0u8; 8]);
    assert_eq!(listing_of(bytes).1, Err(Error::DisassembleFailure));
}
