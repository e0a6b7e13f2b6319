//! Object format, builder, disassembler and runtime pieces of a small
//! register machine.
pub mod builder;
pub mod code;
pub mod codegen;
pub mod disasm;
pub mod errors;
pub mod isa;
pub mod lexer;
pub mod parser;
pub mod register_allocator;
pub mod text;
pub mod version;
pub mod vm;

pub use builder::{BlockBuilder, Builder, Operand, OutputType, ProcedureBuilder, Write};
pub use codegen::{compile, compile_expression, CompileError, Generator};
pub use disasm::{disassemble, Disassembler};
pub use errors::Error;
pub use lexer::{next_token, tokenize, LexError, Token};
pub use parser::{Expr, Operator, ParseError, Parser};
pub use isa::{
    Instruction, InstructionSignature, OperandType, Register, RegisterType, SyscallRegisterPrefix,
    INST_ALT_MODE, INST_MAX, REGISTER_MAX,
};
pub use register_allocator::{RegisterAllocator, RegisterArena};
pub use version::{Version, MAX_VERSION_NUMBER};
pub use vm::{
    check_path, complete_syscall, fd_of_file_id, file_id_of_fd, open_options, syscall_request,
    FileID, General, HostRequest, OpenFlags, Registers, Stack, Syscall, VMError, BADFID, STACK_SIZE,
    STDERR, STDIN, STDOUT, VM,
};
