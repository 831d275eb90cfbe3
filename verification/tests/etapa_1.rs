use lib::alu::AluInstruction;
use lib::etapa_1::cpu::{Cpu, ExecutionLog};
use lib::etapa_1::logger::{Cycle, Logger};
use lib::instruction_register::{InstructionRegister, ProgramCounter};

#[test]
fn first_stage_cpu_counts_from_zero() {
    let mut cpu = Cpu::new();
    let c = AluInstruction::from(0b00111100);
    let r0 = cpu.execute_cycle(0xFFFF_FFFF, 1, c);
    assert_eq!(r0.pc, 0);
    assert_eq!(r0.result.s, 0);
    assert!(r0.result.carry);
    let r1 = cpu.execute_cycle(2, 3, c);
    assert_eq!(r1.pc, 1);
    assert_eq!(r1.result.s, 5);
    assert_eq!(r1.ir, c);
}

#[test]
fn first_stage_log_text() {
    let mut cpu = Cpu::new();
    let mut logger = Logger::new();
    logger.start_program(15, 240);
    let log = cpu.execute_cycle(15, 240, AluInstruction::from(0b00011100));
    logger.log_cycle(1, &log);
    logger.end_program(2);
    let expected = "\
b = 00000000000000000000000011110000
a = 00000000000000000000000000001111

Start of Program
============================================================
Cycle 1

PC = 0
IR = 00011100
b = 00000000000000000000000011110000
a = 00000000000000000000000000001111
s = 00000000000000000000000011111111
co = 0
============================================================
Cycle 2

PC = 2
> Line is empty, EOP.";
    assert_eq!(logger.contents(), expected);
    let _ = ExecutionLog::new(AluInstruction::from(0), 0, 0, 0, log.result);
    assert_eq!(Cycle {}, Cycle {});
}

#[test]
fn registers_of_the_first_stage() {
    let mut pc = ProgramCounter::new();
    assert_eq!(pc.get(), 0);
    pc.increment();
    pc.increment();
    assert_eq!(pc.get(), 2);
    let mut ir = InstructionRegister::new();
    assert!(ir.get().is_none());
    ir.load(AluInstruction::from(3));
    assert_eq!(ir.get(), Some(&AluInstruction::from(3)));
    ir.load(AluInstruction::from(4));
    assert_eq!(ir.get(), Some(&AluInstruction::from(4)));
}
