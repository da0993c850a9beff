use gyan85::assembler::{assemble, assemble_instruction};
use gyan85::constants::{ByteOrderConstants, Constants, DecodeError};
use gyan85::disassembler::{disassemble, disassemble_instruction, DisassembleError};
use gyan85::emulator::{Emulator, HostCall, HostReply, RuntimeError};
use gyan85::flags::Flags;
use gyan85::instruction::Instruction;
use gyan85::memory::{Code, CodeTooLong, Memory};
use gyan85::parse::parse_asm_file;
use gyan85::register::Register;
use gyan85::syscall::Syscall;

fn sample_program() -> Vec<Instruction> {
    vec![
        Instruction::IMM(Register::A, 5),
        Instruction::ADD(Register::D, Register::F),
        Instruction::STK(None, Some(Register::S)),
        Instruction::STK(Some(Register::I), None),
        Instruction::STM(Register::B, Register::C),
        Instruction::LDM(Register::C, Register::B),
        Instruction::CMP(Register::A, Register::B),
        Instruction::JMP("LGENZ".try_into().unwrap(), Register::D),
        Instruction::JMP("E".try_into().unwrap(), Register::A),
        Instruction::SYS(0x77, Some(Register::A)),
        Instruction::SYS(0x20, None),
    ]
}

fn odd_table() -> Constants {
    let mut c = Constants::default();
    c.opcode.IMM = 0x93;
    c.opcode.SYS = 0x11;
    c.register.A = 0xfe;
    c.flag.N = 0x40;
    c
}

#[test]
fn round_trip_under_default_table() {
    let consts = Constants::default();
    assert!(consts.is_valid());
    let bytes = assemble(&[Instruction::IMM(Register::A, 5)], consts);
    assert_eq!(bytes, vec![consts.opcode.IMM, consts.register.A, 5]);
    assert_eq!(disassemble(bytes, consts), Ok(vec![Instruction::IMM(Register::A, 5)]));
}

#[test]
fn round_trip_under_every_byte_order() {
    let orders = [(0, 1, 2), (0, 2, 1), (1, 0, 2), (1, 2, 0), (2, 0, 1), (2, 1, 0)];
    for (op, a, b) in orders {
        let mut consts = odd_table();
        consts.byte_order = ByteOrderConstants { op, a, b };
        assert!(consts.is_valid());
        let program = sample_program();
        let bytes = assemble(&program, consts);
        assert_eq!(bytes.len(), 3 * program.len());
        assert_eq!(bytes[op as usize], consts.opcode.IMM);
        assert_eq!(bytes[a as usize], consts.register.A);
        assert_eq!(bytes[b as usize], 5);
        assert_eq!(disassemble(bytes, consts), Ok(program));
    }
}

#[test]
fn invalid_opcode_is_an_error() {
    let consts = Constants::default();
    assert_eq!(
        disassemble_instruction([0x00, consts.register.A, 1], consts),
        Err(DecodeError::InvalidOpcode(0x00))
    );
    assert_eq!(
        disassemble(vec![0xff, 0, 0], consts),
        Err(DisassembleError::InvalidChunk(0, DecodeError::InvalidOpcode(0xff)))
    );
}

#[test]
fn invalid_tables_are_refused() {
    let mut c = Constants::default();
    c.opcode.ADD = c.opcode.IMM;
    assert!(!c.is_valid());
    let mut c = Constants::default();
    c.register.F = 0;
    assert!(!c.is_valid());
    let mut c = Constants::default();
    c.flag.G = c.flag.L | 0x80;
    assert!(!c.is_valid());
    let mut c = Constants::default();
    c.byte_order.b = 1;
    assert!(!c.is_valid());
    let mut c = Constants::default();
    c.syscall.EXIT = c.syscall.OPEN;
    assert!(!c.is_valid());
}

fn run_one(instruction: Instruction, setup: &[(Register, u8)]) -> Emulator {
    let mut emulator = Emulator::new(Constants::default(), vec![instruction], Memory::default());
    for (r, v) in setup {
        emulator.set_register(*r, *v);
    }
    let step = emulator.step().unwrap();
    assert_eq!(step.instruction, instruction);
    emulator
}

#[test]
fn cmp_sets_exactly_the_outcome_flags() {
    let f = Constants::default().flag;
    let e = run_one(Instruction::CMP(Register::A, Register::B), &[(Register::A, 1), (Register::B, 2), (Register::F, 0xff)]);
    assert_eq!(e.register(Register::F), f.L | f.N);
    let e = run_one(Instruction::CMP(Register::A, Register::B), &[(Register::A, 0), (Register::B, 0)]);
    assert_eq!(e.register(Register::F), f.E | f.Z);
    let e = run_one(Instruction::CMP(Register::A, Register::B), &[(Register::A, 9), (Register::B, 3)]);
    assert_eq!(e.register(Register::F), f.G | f.N);
}

#[test]
fn jmp_takes_any_overlapping_bit() {
    let f = Constants::default().flag;
    let e = run_one(Instruction::JMP("E".try_into().unwrap(), Register::D), &[(Register::F, f.L | f.G), (Register::D, 7)]);
    assert_eq!(e.register(Register::I), 1);
    let e = run_one(Instruction::JMP("L".try_into().unwrap(), Register::D), &[(Register::F, f.L | f.G), (Register::D, 7)]);
    assert_eq!(e.register(Register::I), 7);
    let e = run_one(Instruction::JMP("EG".try_into().unwrap(), Register::D), &[(Register::F, f.L | f.G), (Register::D, 7)]);
    assert_eq!(e.register(Register::I), 7);
}

#[test]
fn add_wraps_around() {
    let e = run_one(Instruction::ADD(Register::A, Register::B), &[(Register::A, 250), (Register::B, 10)]);
    assert_eq!(e.register(Register::A), 4);
    assert_eq!(e.register(Register::B), 10);
}

#[test]
fn instruction_pointer_wraps() {
    let e = run_one(Instruction::IMM(Register::C, 1), &[]);
    assert_eq!(e.register(Register::I), 1);
}

#[test]
fn push_then_pop_moves_a_value() {
    let mut emulator = Emulator::new(
        Constants::default(),
        vec![Instruction::STK(None, Some(Register::C)), Instruction::STK(Some(Register::B), None)],
        Memory::default(),
    );
    emulator.set_register(Register::C, 42);
    emulator.step().unwrap();
    assert_eq!(emulator.register(Register::S), 1);
    assert_eq!(emulator.stack_at(0), 42);
    emulator.step().unwrap();
    assert_eq!(emulator.register(Register::S), 0);
    assert_eq!(emulator.register(Register::B), 42);
}

#[test]
fn pop_from_empty_stack_wraps() {
    let mut emulator = Emulator::new(
        Constants::default(),
        vec![Instruction::STK(Some(Register::A), None)],
        Memory::default(),
    );
    emulator.set_stack(255, 9);
    emulator.step().unwrap();
    assert_eq!(emulator.register(Register::S), 255);
    assert_eq!(emulator.register(Register::A), 9);
}

#[test]
fn assemble_then_disassemble_text() {
    let consts = Constants::default();
    let program = parse_asm_file("IMM a = 0x05\nADD a b\n".to_string()).unwrap();
    let bytes = assemble(&program, consts);
    assert_eq!(
        disassemble(bytes, consts),
        Ok(vec![Instruction::IMM(Register::A, 5), Instruction::ADD(Register::A, Register::B)])
    );
}

#[test]
fn fetch_past_the_program_fails() {
    let mut emulator = Emulator::new(Constants::default(), vec![], Memory::default());
    assert_eq!(emulator.step().unwrap_err(), RuntimeError::FetchOutOfRange(0));
}

#[test]
fn unknown_syscall_fails() {
    let mut emulator = Emulator::new(
        Constants::default(),
        vec![Instruction::SYS(0x3, Some(Register::A))],
        Memory::default(),
    );
    assert_eq!(emulator.step().unwrap_err(), RuntimeError::InvalidSyscall(0x3));
    assert_eq!(emulator.register(Register::I), 0);
}

#[test]
fn returning_syscall_needs_a_register() {
    let consts = Constants::default();
    let mut emulator = Emulator::new(
        consts,
        vec![Instruction::SYS(consts.syscall.WRITE, None)],
        Memory::default(),
    );
    assert_eq!(emulator.step().unwrap_err(), RuntimeError::MissingResultRegister);
}

#[test]
fn write_hands_out_memory_and_takes_count() {
    let consts = Constants::default();
    let mut memory = [0u8; 256];
    memory[254] = b'h';
    memory[255] = b'i';
    memory[0] = b'!';
    let mut emulator = Emulator::new(
        consts,
        vec![Instruction::SYS(consts.syscall.WRITE, Some(Register::D))],
        Memory::from(memory),
    );
    emulator.set_register(Register::A, 1);
    emulator.set_register(Register::B, 254);
    emulator.set_register(Register::C, 3);
    let step = emulator.step().unwrap();
    match step.call {
        Some(HostCall::Write { fd, data }) => {
            assert_eq!(fd, 1);
            assert_eq!(data, b"hi!".to_vec());
        },
        other => panic!("unexpected call {other:?}"),
    }
    assert_eq!(emulator.step().unwrap_err(), RuntimeError::HostCallPending);
    assert_eq!(emulator.resume(HostReply::Written(4)), Err(RuntimeError::UnexpectedReply));
    assert_eq!(emulator.resume(HostReply::Written(3)), Ok(()));
    assert_eq!(emulator.register(Register::D), 3);
    assert_eq!(emulator.resume(HostReply::Slept), Err(RuntimeError::NoHostCallPending));
}

#[test]
fn open_reads_path_and_checks_descriptor() {
    let consts = Constants::default();
    let mut memory = [0u8; 256];
    memory[16..20].copy_from_slice(b"flag");
    let mut emulator = Emulator::new(
        consts,
        vec![Instruction::SYS(consts.syscall.OPEN, Some(Register::B))],
        Memory::from(memory),
    );
    emulator.set_register(Register::A, 16);
    let step = emulator.step().unwrap();
    match step.call {
        Some(HostCall::Open { path }) => assert_eq!(path, b"flag".to_vec()),
        other => panic!("unexpected call {other:?}"),
    }
    assert_eq!(emulator.resume(HostReply::Opened(300)), Err(RuntimeError::ReturnOverflow(300)));
    assert_eq!(emulator.resume(HostReply::Opened(3)), Ok(()));
    assert_eq!(emulator.register(Register::B), 3);
}

#[test]
fn read_memory_writes_wrapping() {
    let consts = Constants::default();
    let mut emulator = Emulator::new(
        consts,
        vec![Instruction::SYS(consts.syscall.READ_MEMORY, Some(Register::C))],
        Memory::default(),
    );
    emulator.set_register(Register::A, 0);
    emulator.set_register(Register::B, 255);
    emulator.set_register(Register::C, 8);
    let step = emulator.step().unwrap();
    match step.call {
        Some(HostCall::ReadMemory { fd, count }) => {
            assert_eq!((fd, count), (0, 8));
        },
        other => panic!("unexpected call {other:?}"),
    }
    assert_eq!(emulator.resume(HostReply::Read(vec![7, 8])), Ok(()));
    assert_eq!(emulator.memory_at(255), 7);
    assert_eq!(emulator.memory_at(0), 8);
    assert_eq!(emulator.register(Register::C), 2);
}

#[test]
fn read_code_extends_the_program() {
    let consts = Constants::default();
    let mut emulator = Emulator::new(
        consts,
        vec![Instruction::SYS(consts.syscall.READ_CODE, Some(Register::D))],
        Memory::default(),
    );
    emulator.set_register(Register::B, 1);
    emulator.set_register(Register::C, 6);
    emulator.step().unwrap();
    let code = assemble(&[Instruction::IMM(Register::A, 9)], consts);
    assert_eq!(emulator.resume(HostReply::Read(code)), Ok(()));
    assert_eq!(emulator.program_len(), 2);
    assert_eq!(emulator.register(Register::D), 3);
    emulator.step().unwrap();
    assert_eq!(emulator.register(Register::A), 9);
}

#[test]
fn read_code_rejects_bad_code_and_gaps() {
    let consts = Constants::default();
    let mut emulator = Emulator::new(
        consts,
        vec![Instruction::SYS(consts.syscall.READ_CODE, Some(Register::D))],
        Memory::default(),
    );
    emulator.set_register(Register::B, 5);
    emulator.set_register(Register::C, 6);
    emulator.step().unwrap();
    assert_eq!(
        emulator.resume(HostReply::Read(vec![1, 2])),
        Err(RuntimeError::InvalidCode(DisassembleError::InvalidLength(2)))
    );
    let code = assemble(&[Instruction::IMM(Register::A, 9)], consts);
    assert_eq!(emulator.resume(HostReply::Read(code)), Err(RuntimeError::CodeGap(5)));
}

#[test]
fn sleep_and_exit_calls() {
    let consts = Constants::default();
    let mut emulator = Emulator::new(
        consts,
        vec![
            Instruction::SYS(consts.syscall.SLEEP, Some(Register::A)),
            Instruction::SYS(consts.syscall.EXIT, None),
        ],
        Memory::default(),
    );
    emulator.set_register(Register::A, 2);
    match emulator.step().unwrap().call {
        Some(HostCall::Sleep { seconds }) => assert_eq!(seconds, 2),
        other => panic!("unexpected call {other:?}"),
    }
    assert_eq!(emulator.resume(HostReply::Read(vec![])), Err(RuntimeError::UnexpectedReply));
    assert_eq!(emulator.resume(HostReply::Slept), Ok(()));
    assert_eq!(emulator.register(Register::A), 0);
    match emulator.step().unwrap().call {
        Some(HostCall::Exit { code }) => assert_eq!(code, 0),
        other => panic!("unexpected call {other:?}"),
    }
    assert_eq!(emulator.pending().map(|p| p.syscall), Some(Syscall::Exit));
    assert_eq!(emulator.step().unwrap_err(), RuntimeError::HostCallPending);
}

#[test]
fn code_storage() {
    let code = Code::try_from(vec![1, 2, 3, 4, 5, 6, 7]).unwrap();
    assert_eq!(code.get_instruction(1), [4, 5, 6]);
    assert_eq!(code.get_instruction(2), [7, 0, 0]);
    assert_eq!(code.get_instruction(255), [0, 0, 0]);
    assert_eq!(Code::try_from(vec![0; 769]).err(), Some(CodeTooLong { len: 769 }));
}

#[test]
fn flags_match_any_common_flag() {
    let lg: Flags = "LG".try_into().unwrap();
    let g: Flags = "G".try_into().unwrap();
    let e: Flags = "E".try_into().unwrap();
    assert!(lg.does_match(&g));
    assert!(!lg.does_match(&e));
}

#[test]
fn register_byte_conversions() {
    let consts = Constants::default();
    assert_eq!(Register::F.to_u8(consts), consts.register.F);
    assert_eq!(Register::try_from(consts.register.S, consts), Ok(Register::S));
    assert_eq!(Register::try_from(0, consts), Err(DecodeError::InvalidOperand(0)));
    let mut moved = Constants::default();
    moved.byte_order = ByteOrderConstants { op: 2, a: 1, b: 0 };
    assert_eq!(
        assemble_instruction(&Instruction::CMP(Register::A, Register::B), moved),
        [moved.register.B, moved.register.A, moved.opcode.CMP]
    );
}
