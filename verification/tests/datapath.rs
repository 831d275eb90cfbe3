use lib::alu::AluInstruction;
use lib::memory::{BBus, Memory, MemoryLoadError, MemoryOperation};
use lib::mic1::Mic1;
use lib::microinstruction::MicroInstruction;
use lib::register::{RegisterParseError, Registers};

#[test]
fn memory_reads_back_what_was_written() {
    let mut m = Memory::zero();
    m.write(4, 17);
    m.write(5, 18);
    assert_eq!(m.read(4), 17);
    assert_eq!(m.read(5), 18);
    assert_eq!(m.read(6), 0);
    m.write(4, 1);
    assert_eq!(m.read(4), 1);
}

#[test]
fn memory_image_parsing() {
    let text = "00000000000000000000000000000001\n\n  00000000000000000000000000000011  \n";
    let m = Memory::parse(text).unwrap();
    assert_eq!(m.read(0), 1);
    assert_eq!(m.read(1), 3);
    assert_eq!(m.read(2), 0);
    assert_eq!(Memory::parse("0101\n").unwrap_err(), MemoryLoadError::NonBinarySegment);
    let seventeen = "00000000000000000000000000000000\n".repeat(17);
    assert_eq!(Memory::parse(&seventeen).unwrap_err(), MemoryLoadError::TooManyLines);
    assert_eq!(MemoryLoadError::TooManyLines.to_string(), "too many lines");
    assert_eq!(MemoryLoadError::NonBinarySegment.to_string(), "non binary memory segment");
    assert_eq!(Memory::parse("").unwrap(), Memory::zero());
}

#[test]
fn bus_names_and_selectors() {
    assert_eq!(BBus::Mbru.name(), "mbru");
    assert_eq!(BBus::H.name(), "h");
    assert_eq!(BBus::Opc.selector(), 8);
    assert_eq!(MemoryOperation::ReadWrite.bits(), 3);
    assert_eq!(Registers::b_bus_name(3), "mbru");
    assert_eq!(Registers::b_bus_name(8), "opc");
}

#[test]
fn b_bus_decode_extends_mbr() {
    let mut r = Registers::default();
    r.mbr = 0xF0;
    r.tos = 9;
    assert_eq!(r.b_bus_decode(2), 0xF0);
    assert_eq!(r.b_bus_decode(3), 0xFFFF_FFF0);
    assert_eq!(r.b_bus_decode(7), 9);
    assert_eq!(r.b_bus_decode(12), 0);
}

#[test]
fn register_errors() {
    assert_eq!(
        RegisterParseError::InvalidLine { line: 4 }.to_string(),
        "invalid register line at line 4"
    );
    let e: RegisterParseError = std::io::Error::new(std::io::ErrorKind::Other, "x").into();
    assert!(e.to_string().starts_with("IO error reading registers: "));
}

#[test]
fn mic1_step_writes_sd_to_the_c_bus() {
    let mut regs = Registers::default();
    regs.h = 1;
    regs.sp = 0x80;
    let mut cpu = Mic1::new(regs);
    // H + SP, shifted left by 8, into TOS and OPC
    let instr = MicroInstruction {
        alu: AluInstruction::from(0b10111100),
        c_sel: 0b011000000,
        memory: MemoryOperation::Idle,
        b_sel: BBus::Sp,
    };
    let (b_name, c_names, before, after) = cpu.step(&instr);
    assert_eq!(b_name, "sp");
    assert_eq!(c_names, vec!["TOS", "OPC"]);
    assert_eq!(before.tos, 0);
    assert_eq!(after.tos, 0x8100);
    assert_eq!(after.opc, 0x8100);
    assert_eq!(cpu.regs.tos, 0x8100);
    assert_eq!(cpu.regs.h, 1);
}
