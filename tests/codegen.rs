use dream::{compile, CompileError, Disassembler, Parser};

fn compile_src(s: &str) -> Result<Vec<u8>, CompileError> {
    compile(&Parser::parse(s.chars().collect()).unwrap())
}

fn listing(bytes: Vec<u8>) -> String {
    let mut d = Disassembler::new(bytes);
    d.disassemble().unwrap();
    String::from_utf8(d.listing().clone()).unwrap()
}

#[test]
fn compiles_let_and_print() {
    let bytes = compile_src("(let x 42) ($ x)").unwrap();
    assert_eq!(&bytes[..16], b"DREAM000OUTT\0\0\0\0");
    let text = listing(bytes);
    let code = text.split("CODE:\n").nth(1).unwrap();
    let ops: Vec<&str> = code
        .lines()
        .filter(|l| !l.starts_with("ENTRY"))
        .map(|l| l[14..].trim_end())
        .collect();
    assert_eq!(
        ops,
        vec![
            "MoveImm     rq0, $42",
            "Push        rq0",
            "Set         rsi",
            "MoveImm     rs0, $2",
            "StackLoad   rq0, [stk+0]",
            "Move        rs1, rq0",
            "Syscall2",
            "Ret",
        ]
    );
}

#[test]
fn zero_literal_clears() {
    let bytes = compile_src("(let y 0) (let z y)").unwrap();
    let text = listing(bytes);
    assert!(text.contains("Clear       rq0\n"));
    assert!(text.contains("StackLoad   rq0, [stk+0]\n"));
    assert!(text.contains("Push        rq0\n"));
}

#[test]
fn compile_errors() {
    assert_eq!(compile_src("($ y)"), Err(CompileError::UnknownIdentifier));
    assert_eq!(compile_src("(+ 1 2)"), Err(CompileError::UnsupportedOperation));
    assert_eq!(compile_src("(* 1)"), Err(CompileError::NotEnoughOperands));
    assert_eq!(compile_src("($)"), Err(CompileError::NotEnoughOperands));
    assert!(compile_src("").is_ok());
}
