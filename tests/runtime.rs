use dream::{
    check_path, complete_syscall, fd_of_file_id, file_id_of_fd, open_options, syscall_request,
    HostRequest, OpenFlags, Register, RegisterAllocator, RegisterType, Registers, Stack, Syscall,
    VMError, STACK_SIZE, STDERR, STDIN, STDOUT, VM,
};

#[test]
fn stack_overflow_on_513th_push() {
    let mut vm = VM::new();
    for i in 0..512u64 {
        assert_eq!(vm.stack.push(i), Ok(()));
    }
    assert_eq!(vm.stack.allocated(), STACK_SIZE);
    assert_eq!(vm.stack.push(512), Err(VMError::StackOverflow));
    assert_eq!(vm.stack.allocated(), STACK_SIZE);
    assert_eq!(vm.stack.pop(), Ok(511));
}

#[test]
fn stack_push_pop() {
    let mut s: Stack<16> = Stack::new();
    assert_eq!(s.pop(), Err(VMError::StackUnderflow));
    s.push_bytes(&[1, 2, 3]).unwrap();
    assert_eq!(s.pop_bytes(4), Err(VMError::StackUnderflow));
    assert_eq!(s.pop_bytes(2), Ok(vec![2, 3]));
    assert_eq!(s.pop_bytes(1), Ok(vec![1]));
    assert_eq!(s.allocated(), 0);
    s.push(0x0102030405060708).unwrap();
    assert_eq!(s.push_bytes(&[0; 9]), Err(VMError::StackOverflow));
    s.push_bytes(&[9; 8]).unwrap();
    assert_eq!(s.pop(), Ok(0x0909090909090909));
    assert_eq!(s.pop(), Ok(0x0102030405060708));
}

#[test]
fn register_views_alias() {
    let mut regs = Registers::new();
    let q3 = Register::new(RegisterType::Q, 3).unwrap();
    let d3 = Register::new(RegisterType::D, 3).unwrap();
    let w3 = Register::new(RegisterType::W, 3).unwrap();
    let b3 = Register::new(RegisterType::B, 3).unwrap();
    regs.write(q3, 0x1122_3344_5566_7788);
    assert_eq!(regs.read(d3), 0x5566_7788);
    assert_eq!(regs.read(w3), 0x7788);
    assert_eq!(regs.read(b3), 0x88);
    regs.write(b3, 0x1FF);
    assert_eq!(regs.read(q3), 0x1122_3344_5566_77FF);
    regs.write(w3, 0xABCD);
    assert_eq!(regs.read(q3), 0x1122_3344_5566_ABCD);
    regs.write(d3, 0);
    assert_eq!(regs.read(q3), 0x1122_3344_0000_0000);
    regs.write(Register::rxz(), 5);
    assert_eq!(regs.read(Register::rxz()), 0);
    regs.write(Register::rsi(), 0x1_0002);
    assert_eq!(regs.read(Register::rsi()), 2);
    regs.write(Register::rs4(), 44);
    assert_eq!(regs.rs[4], 44);
}

#[test]
fn file_ids() {
    assert_eq!(fd_of_file_id(STDIN), 0);
    assert_eq!(fd_of_file_id(STDOUT), 1);
    assert_eq!(fd_of_file_id(STDERR), 2);
    assert_eq!(fd_of_file_id(0), -1);
    assert_eq!(file_id_of_fd(0), STDIN);
    assert_eq!(file_id_of_fd(2), STDERR);
    assert_eq!(file_id_of_fd(3), 4);
    assert_eq!(fd_of_file_id(file_id_of_fd(7)), 7);
}

#[test]
fn open_flags() {
    let f = OpenFlags::create().union(OpenFlags::write());
    assert_eq!(f.bits(), 0x12);
    assert!(f.contains(OpenFlags::write()));
    assert!(!f.contains(OpenFlags::read()));
    assert_eq!(open_options(f), (false, true, false, false, true, false));
    assert_eq!(OpenFlags::from_bits(0x40), None);
    assert_eq!(OpenFlags::from_bits(0x3F).map(|f| f.bits()), Some(0x3F));
    assert_eq!(OpenFlags::none().bits(), 0);
}

#[test]
fn non_utf8_path_is_rejected() {
    assert_eq!(check_path(b"tests/test.txt"), Ok(()));
    assert_eq!(check_path(&[0x74, 0xFF, 0xFE]), Err(VMError::InvalidPath));
    assert_eq!(check_path("é".as_bytes()), Ok(()));
}

#[test]
fn syscall_roundtrip_requests() {
    let mut vm = VM::new();
    vm.reg.rsi = 2;
    vm.reg.rs[0] = 0x100;
    vm.reg.rs[1] = 14;
    vm.reg.rs[2] = OpenFlags::create().union(OpenFlags::write()).bits();
    let open = syscall_request(&vm.reg, 3).unwrap();
    assert!(matches!(open, HostRequest::Open { path: 0x100, len: 14, flags } if flags.bits() == 0x12));
    complete_syscall(&mut vm.reg, open, 4);
    let fid = vm.reg.rsr;
    assert_eq!(fid, 4);

    vm.reg.rsi = 1;
    vm.reg.rs[0] = fid;
    vm.reg.rs[1] = 0x200;
    vm.reg.rs[2] = 60;
    let write = syscall_request(&vm.reg, 3).unwrap();
    assert_eq!(write, HostRequest::Write { fid: 4, buf: 0x200, len: 60 });
    complete_syscall(&mut vm.reg, write, 0);
    assert_eq!(vm.reg.rsr, 4);

    vm.reg.rsi = 3;
    assert_eq!(syscall_request(&vm.reg, 1), Ok(HostRequest::Close { fid: 4 }));
    assert_eq!(syscall_request(&vm.reg, 3), Err(VMError::InvalidSyscall));

    vm.reg.rsi = 0;
    vm.reg.rs[2] = 80;
    let read = syscall_request(&vm.reg, 3).unwrap();
    assert_eq!(read, HostRequest::Read { fid: 4, buf: 0x200, len: 80 });
    complete_syscall(&mut vm.reg, read, 60);
    assert_eq!(vm.reg.rsr, 60);

    vm.reg.rsi = 9;
    assert_eq!(syscall_request(&vm.reg, 3), Err(VMError::InvalidSyscall));
    vm.reg.rsi = 2;
    vm.reg.rs[2] = 0x80;
    assert_eq!(syscall_request(&vm.reg, 3), Err(VMError::InvalidSyscall));
    assert_eq!(Syscall::from_index(3), Ok(Syscall::Close));
}

#[test]
fn arena_restores_counters() {
    let mut ator = RegisterAllocator::new();
    let mut top = ator.start_arena();
    let q0 = top.next(RegisterType::Q);
    let q1 = top.next(RegisterType::Q);
    assert_eq!(q0.to_u8(), 0xE0);
    assert_eq!(q1.to_u8(), 0xE1);
    {
        let mut inner = top.new_arena();
        assert_eq!(inner.next(RegisterType::Q).to_u8(), 0xE2);
        assert_eq!(inner.next(RegisterType::B).to_u8(), 0x40);
        inner.release();
    }
    assert_eq!(top.next(RegisterType::Q).to_u8(), 0xE2);
    assert_eq!(top.next(RegisterType::B).to_u8(), 0x40);
    assert_eq!(top.next(RegisterType::W).to_u8(), 0x80);
    assert_eq!(top.next(RegisterType::D).to_u8(), 0xC0);
    top.release();
    let mut again = ator.start_arena();
    assert_eq!(again.next(RegisterType::Q).to_u8(), 0xE0);
    again.release();
}
