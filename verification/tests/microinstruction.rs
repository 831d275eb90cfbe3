use lib::alu::AluInstruction;
use lib::memory::{BBus, Memory, MemoryOperation};
use lib::microinstruction::{c_bus_names, c_bus_write, MicroInstruction, MicroInstructionParseError};
use lib::register::Registers;
use std::str::FromStr;

#[test]
fn test_c_bus_names_single() {
    let names = c_bus_names(0b000000001);
    assert_eq!(names, vec!["MAR"]);
}

#[test]
fn test_c_bus_names_multiple() {
    let names = c_bus_names(0b100000101);
    assert_eq!(names, vec!["MAR", "PC", "H"]);
}

#[test]
fn test_parse_invalid_length() {
    let result = MicroInstruction::from_str("1010");
    assert_eq!(result.unwrap_err(), MicroInstructionParseError::InvalidLength(4));
}

#[test]
fn test_parse_invalid_chars() {
    let result = MicroInstruction::from_str("00000000A000000000000");
    assert_eq!(result.unwrap_err(), MicroInstructionParseError::NonBinaryChar);
}

#[test]
fn parse_reads_the_four_fields() {
    let m = MicroInstruction::from_str("00111100100000001010111").unwrap();
    assert_eq!(m.alu, AluInstruction::from(0b00111100));
    assert_eq!(m.c_sel, 0b100000001);
    assert_eq!(m.memory, MemoryOperation::Read);
    assert_eq!(m.b_sel, BBus::Tos);
    assert_eq!(m.to_string(), "00111100 100000001 01 0111");
}

#[test]
fn parse_refuses_memory_11_and_selectors_above_9() {
    assert_eq!(
        MicroInstruction::from_str("00111100100000001110111").unwrap_err(),
        MicroInstructionParseError::InvalidMemory(3)
    );
    assert_eq!(
        MicroInstruction::from_str("00111100100000001001010").unwrap_err(),
        MicroInstructionParseError::InvalidBBus(10)
    );
    assert_eq!(
        MicroInstructionParseError::InvalidMemory(3).to_string(),
        "invalid memory value: 0b11"
    );
    assert_eq!(
        MicroInstructionParseError::InvalidBBus(10).to_string(),
        "invalid b_bus value: 10"
    );
    assert_eq!(
        MicroInstructionParseError::InvalidLength(4).to_string(),
        "Tamanho inválido: esperado 21 caracteres, mas recebeu 4"
    );
}

#[test]
fn c_bus_write_sets_exactly_the_named_registers() {
    let mut regs = Registers::default();
    regs.mbr = 7;
    c_bus_write(&mut regs, 0b100000101, 42);
    assert_eq!(regs.mar, 42);
    assert_eq!(regs.pc, 42);
    assert_eq!(regs.h, 42);
    assert_eq!(regs.mdr, 0);
    assert_eq!(regs.sp, 0);
    assert_eq!(regs.tos, 0);
    assert_eq!(regs.mbr, 7);
}

#[test]
fn c_bus_targets_are_the_names_reversed_in_lower_case() {
    let m = MicroInstruction {
        alu: AluInstruction::from(0),
        c_sel: 0b100000101,
        memory: MemoryOperation::Idle,
        b_sel: BBus::Mdr,
    };
    assert_eq!(m.c_bus_targets(), vec!["h", "pc", "mar"]);
    let names: Vec<String> = c_bus_names(m.c_sel).iter().rev().map(|n| n.to_lowercase()).collect();
    assert_eq!(m.c_bus_targets(), names);
}

#[test]
fn execute_reads_before_the_alu_and_writes_after_the_c_bus() {
    let mut mem = Memory::zero();
    mem.write(3, 99);
    let mut regs = Registers::default();
    regs.mar = 3;
    regs.mdr = 5;
    regs.h = 1;
    // read, ALU = B + 1 on the old MDR, written to MDR and MAR (bits 1 and 0)
    let m = MicroInstruction {
        alu: AluInstruction::from(0b00110101),
        c_sel: 0b000000011,
        memory: MemoryOperation::Read,
        b_sel: BBus::Mdr,
    };
    let (after, new_mem) = m.execute(&regs, &mem);
    assert_eq!(after.mdr, 6);
    assert_eq!(after.mar, 6);
    assert_eq!(new_mem, mem);

    // write: memory[new mar] = new mdr
    let w = MicroInstruction {
        alu: AluInstruction::from(0b00110101),
        c_sel: 0b000000001,
        memory: MemoryOperation::Write,
        b_sel: BBus::Mdr,
    };
    let (after, new_mem) = w.execute(&regs, &mem);
    assert_eq!(after.mar, 6);
    assert_eq!(new_mem.read(6), 5);
    assert_eq!(new_mem.read(3), 99);
}

#[test]
fn execute_sign_extends_mbr_and_zero_extends_mbru() {
    let mem = Memory::zero();
    let mut regs = Registers::default();
    regs.mbr = 0x80;
    let pass_b = AluInstruction::from(0b00110100);
    let m = MicroInstruction { alu: pass_b, c_sel: 0b100000000, memory: MemoryOperation::Idle, b_sel: BBus::Mbr };
    assert_eq!(m.execute(&regs, &mem).0.h, 0xFFFF_FF80);
    let m = MicroInstruction { alu: pass_b, c_sel: 0b100000000, memory: MemoryOperation::Idle, b_sel: BBus::Mbru };
    assert_eq!(m.execute(&regs, &mem).0.h, 0x80);
}
