use lib::ijvm::{execute, ExecuteError, IjvmInstruction, IjvmParseError};
use lib::logger::Logger;
use lib::memory::Memory;
use lib::register::Registers;

#[test]
fn parses_the_three_instructions() {
    assert_eq!(IjvmInstruction::parse("BIPUSH 00000101"), Ok(IjvmInstruction::Bipush(5)));
    assert_eq!(IjvmInstruction::parse("  dup "), Ok(IjvmInstruction::Dup));
    assert_eq!(IjvmInstruction::parse("iload +7"), Ok(IjvmInstruction::ILoad(7)));
    assert_eq!(IjvmInstruction::parse("ILOAD 255"), Ok(IjvmInstruction::ILoad(255)));
}

#[test]
fn parse_errors_are_messages() {
    assert_eq!(IjvmInstruction::parse("   ").unwrap_err(), "empty line");
    assert_eq!(IjvmInstruction::parse("BIPUSH").unwrap_err(), "BIPUSH requires 8-bit binary argument");
    assert_eq!(IjvmInstruction::parse("BIPUSH 0101").unwrap_err(), "BIPUSH argument must be 8-bit binary");
    assert_eq!(IjvmInstruction::parse("ILOAD").unwrap_err(), "ILOAD requires numeric argument");
    assert_eq!(IjvmInstruction::parse("ILOAD 256").unwrap_err(), "ILOAD argument must be integer");
    assert_eq!(IjvmInstruction::parse("ILOAD -1").unwrap_err(), "ILOAD argument must be integer");
    assert_eq!(IjvmInstruction::parse("ILOAD +").unwrap_err(), "ILOAD argument must be integer");
    assert_eq!(IjvmInstruction::parse("Pop 1").unwrap_err(), "unknown opcode: Pop");
    let from_str: Result<IjvmInstruction, String> = "dup".parse();
    assert_eq!(from_str, Ok(IjvmInstruction::Dup));
}

#[test]
fn program_parsing_counts_lines_from_zero() {
    let p = IjvmInstruction::parse_program("BIPUSH 00000001\n\nDUP\n").unwrap();
    assert_eq!(p, vec![IjvmInstruction::Bipush(1), IjvmInstruction::Dup]);
    match IjvmInstruction::parse_program("DUP\nNOPE\n").unwrap_err() {
        IjvmParseError::InvalidLine { line, message } => {
            assert_eq!(line, 1);
            assert_eq!(message, "unknown opcode: NOPE");
            assert_eq!(
                IjvmParseError::InvalidLine { line, message }.to_string(),
                "Line 1: unknown opcode: NOPE"
            );
        }
        IjvmParseError::Io(_) => panic!("expected a line error"),
    }
    let e: ExecuteError = IjvmParseError::InvalidLine { line: 0, message: String::new() }.into();
    assert!(matches!(e, ExecuteError::Ijvm(_)));
}

#[test]
fn dup_pushes_the_top_of_the_stack() {
    let mut regs = Registers::default();
    regs.sp = 2;
    regs.tos = 77;
    let mut logger = Logger::new();
    let (after, mem) = execute(&vec![IjvmInstruction::Dup], regs, Memory::zero(), &mut logger);
    assert_eq!(after.sp, 3);
    assert_eq!(after.mar, 3);
    assert_eq!(after.mdr, 77);
    assert_eq!(mem.read(3), 77);
    let log = logger.contents();
    assert!(log.contains("Cycle 0\nir = 00110101 000001001 00 0100\n"));
    assert!(log.contains("b = sp\nc = MAR, SP\n"));
    assert!(log.contains("b = tos\nc = MDR\n"));
    assert!(log.ends_with("Cycle 2\nNo more lines, EOP.\n"));
}

#[test]
fn iload_copies_a_local_to_the_top_of_the_stack() {
    let mut regs = Registers::default();
    regs.lv = 1;
    regs.sp = 5;
    let mut mem = Memory::zero();
    mem.write(3, 1234);
    let mut logger = Logger::new();
    let (after, mem) = execute(&vec![IjvmInstruction::ILoad(2)], regs, mem, &mut logger);
    assert_eq!(after.h, 3);
    assert_eq!(after.mar, 6);
    assert_eq!(after.sp, 6);
    // the read takes MAR as it was before the cycle (0), not the new H
    assert_eq!(after.mdr, 0);
    assert_eq!(after.tos, 0);
    assert_eq!(mem.read(6), 0);
    assert_eq!(mem.read(3), 1234);
    // H = LV; two increments; read; write; TOS = MDR
    assert!(logger.contents().contains("Cycle 5\n"));
    assert!(logger.contents().ends_with("Cycle 6\nNo more lines, EOP.\n"));
}

#[test]
fn bipush_logs_the_fetch_without_buses() {
    let regs = Registers::default();
    let mut logger = Logger::new();
    let (after, mem) = execute(&vec![IjvmInstruction::Bipush(0b0000_0111)], regs, Memory::zero(), &mut logger);
    assert_eq!(after.sp, 1);
    assert_eq!(after.tos, 0);
    assert_eq!(mem.read(1), 0);
    let log = logger.contents();
    assert!(log.contains("ir = 00000111 000000000 11 0000\n\nb = (none)\nc = (none)\n"));
    assert!(log.contains("> Memory after instruction"));
}
