//! Code generation for the example language: each top-level expression is
//! compiled into one procedure of an executable file.
use vstd::prelude::*;

use crate::builder::{
    dream_bytes, move_bytes, ret_terminated, BlockBuilder, Builder, Operand, OutputType,
    ProcedureBuilder,
};
use crate::code::le64;
use crate::isa::{opcode, register_new_spec, Instruction, OperandType, Register, RegisterType};
use crate::parser::{Expr, Operator};
use crate::register_allocator::{allocatable, counter, RegisterAllocator, RegisterArena};
use crate::version::Version;

verus! {

/// The syscall index of a write.
pub const SYS_WRITE: u64 = 1;

/// The file identifier of standard output.
pub const STDOUT_FID: u64 = 2;

/// Why a program could not be compiled.
#[derive(Clone, Copy, Debug, PartialEq, Eq, Structural)]
pub enum CompileError {
    /// An identifier that no `let` before it declares.
    UnknownIdentifier,
    /// An operation with too few operands.
    NotEnoughOperands,
    /// An arithmetic or comparison operation, for which no code is generated.
    UnsupportedOperation,
    /// All 32 registers of a class are in use.
    TooManyRegisters,
    /// The stack offsets of the variables no longer fit a word.
    StackTooDeep,
}

/// The two's-complement word of an integer literal.
pub open spec fn lit_word(v: i64) -> u64 {
    if v >= 0 {
        v as u64
    } else {
        (v + 0x1_0000_0000_0000_0000) as u64
    }
}

/// The two's-complement word of `v`.
fn word_of(v: i64) -> (r: u64)
    ensures
        r == lit_word(v),
{
    if v >= 0 {
        v as u64
    } else {
        u64::MAX - ((-(v + 1)) as u64)
    }
}

/// The stack offset of the latest variable named `name`.
pub open spec fn lookup(vars: Seq<(Seq<char>, u64)>, name: Seq<char>) -> Option<u64>
    decreases vars.len(),
{
    if vars.len() == 0 {
        None
    } else if vars.last().0 == name {
        Some(vars.last().1)
    } else {
        lookup(vars.drop_last(), name)
    }
}

/// The variables and next stack offset after compiling `e`, or the error
/// that compiling it raises, where registers are free.
pub open spec fn expr_result(e: Expr, vars: Seq<(Seq<char>, u64)>, sp: u64) -> Result<
    (Seq<(Seq<char>, u64)>, u64),
    CompileError,
>
    decreases e,
{
    match e {
        Expr::Int(_) => Ok((vars, sp)),
        Expr::Ident(n) => if lookup(vars, n@) is Some {
            Ok((vars, sp))
        } else {
            Err(CompileError::UnknownIdentifier)
        },
        Expr::Operation(op, ops) => if op == Operator::Dollar {
            if ops.len() == 0 {
                Err(CompileError::NotEnoughOperands)
            } else {
                expr_result(ops@[0], vars, sp)
            }
        } else if ops.len() < 2 {
            Err(CompileError::NotEnoughOperands)
        } else {
            Err(CompileError::UnsupportedOperation)
        },
        Expr::Let(n, init) => match expr_result(*init, vars, sp) {
            Err(x) => Err(x),
            Ok((v2, sp2)) => if sp2 > u64::MAX - 8 {
                Err(CompileError::StackTooDeep)
            } else {
                Ok((v2.push((n@, sp2)), (sp2 + 8) as u64))
            },
        },
    }
}

/// The outcome of compiling `exprs[i..]` after the variables `vars`.
pub open spec fn program_result(exprs: Seq<Expr>, i: int, vars: Seq<(Seq<char>, u64)>, sp: u64) -> Result<(), CompileError>
    decreases exprs.len() - i,
{
    if i < 0 || i >= exprs.len() {
        Ok(())
    } else {
        match expr_result(exprs[i], vars, sp) {
            Err(x) => Err(x),
            Ok((v2, sp2)) => program_result(exprs, i + 1, v2, sp2),
        }
    }
}

/// The variables declared so far and the next free stack offset.
pub struct Generator {
    variables: Vec<(Vec<char>, u64)>,
    stack_pointer: u64,
}

impl Generator {
    /// No variables; the stack is empty.
    pub fn new() -> (r: Generator)
        ensures
            r.vars() == Seq::<(Seq<char>, u64)>::empty(),
            r.sp() == 0,
    {
        let r = Generator { variables: Vec::new(), stack_pointer: 0 };
        assert(r.vars() =~= Seq::<(Seq<char>, u64)>::empty());
        r
    }

    /// The variables declared so far, oldest first, with their offsets.
    pub closed spec fn vars(&self) -> Seq<(Seq<char>, u64)> {
        Seq::new(self.variables@.len(), |i: int| (self.variables@[i].0@, self.variables@[i].1))
    }

    /// The stack offset of the next variable.
    pub closed spec fn sp(&self) -> u64 {
        self.stack_pointer
    }

    /// The stack offset of the latest variable named `name`.
    fn find(&self, name: &Vec<char>) -> (r: Option<u64>)
        ensures
            r == lookup(self.vars(), name@),
    {
        let mut i = self.variables.len();
        assert(self.vars().take(i as int) =~= self.vars());
        while i > 0
            invariant
                i <= self.variables@.len(),
                lookup(self.vars(), name@) == lookup(self.vars().take(i as int), name@),
            decreases i,
        {
            let entry = &self.variables[i - 1];
            let mut same = entry.0.len() == name.len();
            let mut k: usize = 0;
            while same && k < name.len()
                invariant
                    same ==> entry.0@.len() == name@.len(),
                    k <= name@.len(),
                    same ==> forall|m: int| 0 <= m < k ==> entry.0@[m] == name@[m],
                    !same ==> entry.0@ != name@,
                decreases name@.len() - k,
            {
                if entry.0[k] != name[k] {
                    same = false;
                }
                k += 1;
            }
            assert(same ==> entry.0@ =~= name@);
            let ghost vs = self.vars().take(i as int);
            assert(vs.last() == (entry.0@, entry.1));
            assert(vs.drop_last() =~= self.vars().take(i - 1));
            if same {
                return Some(entry.1);
            }
            i -= 1;
        }
        None
    }

    /// Declares `name` at the next stack offset.
    fn declare(&mut self, name: Vec<char>) -> (r: Result<(), CompileError>)
        ensures
            old(self).sp() <= u64::MAX - 8 ==> r is Ok && final(self).vars() == old(self).vars().push(
                (name@, old(self).sp()),
            ) && final(self).sp() == old(self).sp() + 8,
            old(self).sp() > u64::MAX - 8 ==> r == Err::<(), CompileError>(
                CompileError::StackTooDeep,
            ) && *final(self) == *old(self),
    {
        if self.stack_pointer > u64::MAX - 8 {
            return Err(CompileError::StackTooDeep);
        }
        let ghost before = self.vars();
        let ghost n = name@;
        self.variables.push((name, self.stack_pointer));
        assert(self.vars() =~= before.push((n, self.stack_pointer)));
        self.stack_pointer = self.stack_pointer + 8;
        Ok(())
    }
}

/// Allocates a register of class `t`, or fails with `TooManyRegisters`.
fn allocate(registers: &mut RegisterArena, t: RegisterType) -> (r: Result<Register, CompileError>)
    requires
        allocatable(t),
    ensures
        counter(old(registers).allocator@, t) < 32 ==> (r matches Ok(reg) && register_new_spec(
            t,
            counter(old(registers).allocator@, t),
        ) == Some(reg@)),
        counter(old(registers).allocator@, t) >= 32 ==> r == Err::<Register, CompileError>(
            CompileError::TooManyRegisters,
        ),
{
    if registers.can_allocate(t) {
        Ok(registers.next(t))
    } else {
        Err(CompileError::TooManyRegisters)
    }
}

/// Emits the code of `expr` into `b`; returns the register that holds its
/// value. An integer is moved into a fresh Q register; an identifier is
/// loaded from its stack slot into one; `$` writes its first operand to
/// standard output; `let` pushes its value and declares the variable; any
/// other operation fails.
pub fn compile_expression(
    b: &mut BlockBuilder,
    gen: &mut Generator,
    registers: &mut RegisterArena,
    expr: &Expr,
) -> (r: Result<Register, CompileError>)
    ensures
        *expr is Int && r is Ok ==> final(b)@ == old(b)@ + move_bytes(
            (OperandType::Register, r->Ok_0@ as u64),
            (OperandType::Lit64, lit_word(expr->Int_0)),
            None,
        )->Some_0,
        *expr is Int && r is Err ==> r == Err::<Register, CompileError>(
            CompileError::TooManyRegisters,
        ),
        *expr is Int && counter(old(registers).allocator@, RegisterType::Q) < 32 ==> r is Ok
            && register_new_spec(
            RegisterType::Q,
            counter(old(registers).allocator@, RegisterType::Q),
        ) == Some(r->Ok_0@),
        *expr is Ident && lookup(old(gen).vars(), expr->Ident_0@) is Some && counter(
            old(registers).allocator@,
            RegisterType::Q,
        ) < 32 ==> r is Ok && register_new_spec(
            RegisterType::Q,
            counter(old(registers).allocator@, RegisterType::Q),
        ) == Some(r->Ok_0@),
        *expr is Ident && lookup(old(gen).vars(), expr->Ident_0@) is None ==> r == Err::<
            Register,
            CompileError,
        >(CompileError::UnknownIdentifier),
        *expr is Ident && r is Ok ==> final(b)@ == old(b)@ + seq![
            opcode(Instruction::StackLoad),
            r->Ok_0@,
        ] + le64(lookup(old(gen).vars(), expr->Ident_0@)->Some_0),
        *expr is Ident && lookup(old(gen).vars(), expr->Ident_0@) is Some && r is Err ==> r
            == Err::<Register, CompileError>(CompileError::TooManyRegisters),
        *expr is Operation && expr->Operation_0 == Operator::Dollar && expr->Operation_1.len()
            == 0 ==> r == Err::<Register, CompileError>(CompileError::NotEnoughOperands),
        *expr is Operation && expr->Operation_0 != Operator::Dollar ==> r == Err::<
            Register,
            CompileError,
        >(
            if expr->Operation_1.len() < 2 {
                CompileError::NotEnoughOperands
            } else {
                CompileError::UnsupportedOperation
            },
        ),
        counter(old(registers).allocator@, RegisterType::Q) < 32 ==> match expr_result(
            *expr,
            old(gen).vars(),
            old(gen).sp(),
        ) {
            Ok((v, sp)) => r is Ok && final(gen).vars() == v && final(gen).sp() == sp,
            Err(x) => r == Err::<Register, CompileError>(x),
        },
        *expr is Let && r is Ok ==> r->Ok_0@ == 0 && final(gen).sp() >= 8 && final(gen).vars().len()
            > 0 && final(gen).vars().last() == (expr->Let_0@, (final(gen).sp() - 8) as u64),
    decreases expr,
{
    match expr {
        Expr::Int(value) => {
            let result = match allocate(registers, RegisterType::Q) {
                Ok(reg) => reg,
                Err(e) => {
                    return Err(e);
                },
            };
            let lit = word_of(*value);
            let dst = Operand::reg(result);
            let src = Operand::lit64(lit);
            let _ = b.emit_move(dst, src, None);
            Ok(result)
        },
        Expr::Ident(ident) => {
            let offset = match gen.find(ident) {
                Some(offset) => offset,
                None => {
                    return Err(CompileError::UnknownIdentifier);
                },
            };
            let result = match allocate(registers, RegisterType::Q) {
                Ok(reg) => reg,
                Err(e) => {
                    return Err(e);
                },
            };
            b.emit_stack_load(result, offset);
            Ok(result)
        },
        Expr::Operation(Operator::Dollar, operands) => {
            if operands.len() < 1 {
                return Err(CompileError::NotEnoughOperands);
            }
            let _ = b.emit_move(Operand::reg(Register::rsi()), Operand::lit64(SYS_WRITE), None);
            let _ = b.emit_move(Operand::reg(Register::rs0()), Operand::lit64(STDOUT_FID), None);
            let mut sub = registers.new_arena();
            let value = compile_expression(b, gen, &mut sub, &operands[0]);
            sub.release();
            let value = match value {
                Ok(reg) => reg,
                Err(e) => {
                    return Err(e);
                },
            };
            let _ = b.emit_move(Operand::reg(Register::rs1()), Operand::reg(value), None);
            let _ = b.emit_syscall(2);
            Ok(Register::rsr())
        },
        Expr::Operation(_, operands) => {
            if operands.len() < 2 {
                Err(CompileError::NotEnoughOperands)
            } else {
                Err(CompileError::UnsupportedOperation)
            }
        },
        Expr::Let(ident, init) => {
            let mut sub = registers.new_arena();
            let value = compile_expression(b, gen, &mut sub, init);
            sub.release();
            let value = match value {
                Ok(reg) => reg,
                Err(e) => {
                    return Err(e);
                },
            };
            b.emit_push(Operand::reg(value));
            match gen.declare(ident.clone()) {
                Ok(()) => Ok(Register::rxz()),
                Err(e) => Err(e),
            }
        },
    }
}

/// Compiles `exprs`, in order, into one procedure, and returns the bytes of
/// an executable file (version 0) whose entry is that procedure and whose
/// code ends in `Ret`. Each top-level expression allocates from fresh
/// register counters. Fails, with the first error met, exactly where some
/// expression cannot be compiled.
pub fn compile(exprs: &Vec<Expr>) -> (r: Result<Vec<u8>, CompileError>)
    ensures
        r is Ok <==> program_result(exprs@, 0, Seq::empty(), 0) is Ok,
        r is Err ==> r == Err::<Vec<u8>, CompileError>(
            program_result(exprs@, 0, Seq::empty(), 0)->Err_0,
        ),
        r is Ok ==> exists|code: Seq<u8>|
            ret_terminated(code) && r->Ok_0@ == dream_bytes(
                0,
                OutputType::Bin,
                Seq::<Seq<u8>>::empty(),
                code,
                0,
            ),
{
    let mut builder = Builder::new(Version::from(0), OutputType::Bin);
    let mut generator = Generator::new();
    let mut block = BlockBuilder::new();
    let mut i: usize = 0;
    while i < exprs.len()
        invariant
            i <= exprs@.len(),
            program_result(exprs@, 0, Seq::empty(), 0) == program_result(
                exprs@,
                i as int,
                generator.vars(),
                generator.sp(),
            ),
        decreases exprs.len() - i,
    {
        let mut reg_ator = RegisterAllocator::new();
        let mut registers = reg_ator.start_arena();
        let result = compile_expression(&mut block, &mut generator, &mut registers, &exprs[i]);
        registers.release();
        if let Err(e) = result {
            return Err(e);
        }
        i += 1;
    }
    let mut proc = ProcedureBuilder::new();
    proc.append_block(block);
    let func_id = builder.append_procedure(&proc);
    builder.set_entry(func_id);
    let out = builder.file_bytes();
    Ok(out)
}

} // verus!
