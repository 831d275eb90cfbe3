use lib::alu::{AluInstruction, AluResult, Inputs};
use lib::cpu::{Cpu, ExecutionLog};
use lib::logger::Logger;
use lib::memory::Memory;
use lib::register::Registers;
use std::str::FromStr;

#[test]
fn etapa_2_output() {
    let a: u32 = 0x000000FF;
    let b: u32 = 0x0000FF00;

    let program: Vec<AluInstruction> = ["00001100", "01100100", "10111100"]
        .iter()
        .filter_map(|s| AluInstruction::from_str(s).ok())
        .collect();

    let mut cpu = Cpu::new();
    let mut logger = Logger::new();
    logger.start_program(a, b);

    let r0 = cpu.execute_cycle(a, b, program[0]);
    assert!(program[0].is_valid());
    assert_eq!(r0.result.s, 0x0000_0000);
    assert_eq!(r0.result.sd, 0x0000_0000);
    assert!(r0.result.z);
    assert!(!r0.result.n);
    assert!(!r0.result.carry);
    logger.log_cycle(1, &r0);

    let r1 = cpu.execute_cycle(a, b, program[1]);
    assert!(program[1].is_valid());
    assert_eq!(r1.result.s, 0xFFFF_00FF);
    assert_eq!(r1.result.sd, 0xFFFF_807F);
    assert!(r1.result.n);
    assert!(!r1.result.z);
    logger.log_cycle(2, &r1);

    let r2 = cpu.execute_cycle(a, b, program[2]);
    assert!(program[2].is_valid());
    assert_eq!(r2.result.s, 0x0000_FFFF);
    assert_eq!(r2.result.sd, r2.result.s.wrapping_shl(8));
    assert_eq!(r2.result.sd, 0x00FF_FF00);
    assert!(!r2.result.n);
    assert!(!r2.result.z);
    assert!(!r2.result.carry);
    logger.log_cycle(3, &r2);

    logger.end_program(program.len() + 1);

    let output = logger.contents().to_string();
    println!("{output}");
}

#[test]
fn test_logger_invalid_cycle_format() {
    let mut logger = Logger::new();

    let ir: AluInstruction = "11111100".parse().unwrap();
    let log = ExecutionLog {
        ir,
        pc: 3,
        result: AluResult {
            s: 0,
            sd: 0,
            carry: false,
            n: false,
            z: false,
        },
        used_inputs: Inputs { a: 1, b: 2 },
    };

    logger.log_cycle_invalid_signals(3, &log);
    let s = logger.contents().to_string();
    assert!(s.contains("PC = 3"));
    assert!(s.contains("IR = 11111100"));
    assert!(s.contains("> Error, invalid control signals."));
    assert!(!s.contains("sd ="));
}

#[test]
fn start_cycle_and_end_text() {
    let mut logger = Logger::new();
    logger.start_program(1, 2);
    let log = ExecutionLog::new(AluInstruction::from(0b00111100), 1, 1, 2, AluResult { s: 3, sd: 3, carry: false, n: false, z: false });
    logger.log_cycle(1, &log);
    logger.end_program(2);
    let expected = "\
b = 00000000000000000000000000000010
a = 00000000000000000000000000000001

Start of Program
============================================================
Cycle 1

PC = 1
IR = 00111100
b = 00000000000000000000000000000010
a = 00000000000000000000000000000001
s = 00000000000000000000000000000011
sd = 00000000000000000000000000000011
n = 0
z = 0
co = 0
============================================================
Cycle 2

PC = 2
> Line is empty, EOP.

";
    assert_eq!(logger.contents(), expected);
}

#[test]
fn ijvm_log_pieces() {
    let mut logger = Logger::new();
    let mut mem = Memory::zero();
    mem.write(0, 5);
    let mut regs = Registers::default();
    regs.mbr = 0b1010_0101;
    logger.log_ijvm_start();
    logger.write_memory(&mem);
    logger.log_ijvm_eop(7);
    let s = logger.contents().to_string();
    assert!(s.starts_with("Start of Program\n====="));
    assert!(s.contains("00000000000000000000000000000101\n"));
    assert_eq!(s.matches("00000000000000000000000000000000\n").count(), 15);
    assert!(s.ends_with("Cycle 7\nNo more lines, EOP.\n"));

    let mut logger = Logger::new();
    logger.log_ijvm_initial_state(&mem, &regs);
    let s = logger.contents().to_string();
    assert!(s.contains("Initial memory state"));
    assert!(s.contains("  MBR = 10100101\n"));
    assert!(s.contains("  H   = 00000000000000000000000000000000\n"));
}
