use lib::alu::{AluInstruction, AluParseError};
use lib::cpu::Cpu;
use lib::loader::{parse_program, LoaderError};
use lib::logger::Logger;

#[test]
fn load_program_skips_blank_lines() {
    let program = parse_program("111110\n\n110101\n").unwrap();
    assert_eq!(program.len(), 2);
    assert_eq!(program[0], AluInstruction::from(0b111110));
    assert_eq!(program[1], AluInstruction::from(0b110101));
}

#[test]
fn load_program_reports_bad_line() {
    let err = parse_program("111110\nbad\n").unwrap_err();
    match err {
        LoaderError::Line { line, .. } => assert_eq!(line, 2),
        LoaderError::Io(_) => panic!("expected Line error"),
    }
}

#[test]
fn load_program_handles_crlf_and_reports_the_parse_error() {
    let program = parse_program("111110\r\n00111100\r\n").unwrap();
    assert_eq!(program, vec![AluInstruction::from(0b111110), AluInstruction::from(0b00111100)]);
    let err = parse_program("111110\n1111\n").unwrap_err();
    match err {
        LoaderError::Line { line, message } => {
            assert_eq!(line, 2);
            assert_eq!(message, AluParseError::InvalidLength(4));
            let text = LoaderError::Line { line, message }.to_string();
            assert_eq!(
                text,
                "Failed to load program due to Alu parsing error on 2: expected exactly 6 or 8 bits, but found: 4 >:(\n"
            );
        }
        LoaderError::Io(_) => panic!("expected Line error"),
    }
    assert_eq!(parse_program("").unwrap(), vec![]);
}

#[test]
fn io_errors_convert() {
    let e: LoaderError = std::io::Error::new(std::io::ErrorKind::NotFound, "gone").into();
    assert!(matches!(e, LoaderError::Io(_)));
    assert!(e.to_string().starts_with("Failed to load program due to IO error: gone"));
}

#[test]
fn test_etapa2_program_execution_matches_spec() {
    let b: u32 = 0x80000000;
    let a: u32 = 0x00000001;

    let program = parse_program("10111100\n01111100\n11111100\n").unwrap();
    assert_eq!(program.len(), 3);

    let mut cpu = Cpu::new();

    let r0 = cpu.execute_cycle(a, b, program[0]);
    assert!(program[0].is_valid());
    assert_eq!(r0.result.s, 0x80000001);
    assert_eq!(r0.result.sd, 0x80000001u32.wrapping_shl(8));
    assert_eq!(r0.pc, 1);

    let r1 = cpu.execute_cycle(a, b, program[1]);
    assert!(program[1].is_valid());
    assert_eq!(r1.result.s, 0x80000001);
    assert_eq!(r1.result.sd, (r1.result.s >> 1) | (r1.result.s & 0x80000000));
    assert!(r1.result.n);
    assert!(!r1.result.z);
    assert_eq!(r1.pc, 2);

    let r2 = cpu.execute_cycle(a, b, program[2]);
    assert!(!program[2].is_valid());
    assert_eq!(r2.result.s, 0x80000001);
    assert_eq!(r2.pc, 3);
}

#[test]
fn test_etapa2_logger_output_matches_execution() {
    let a: u32 = 0x00000001;
    let b: u32 = 0x80000000;
    let program = parse_program("10111100\n01111100\n11111100\n").unwrap();
    assert_eq!(program.len(), 3);

    let mut logger = Logger::new();
    logger.start_program(a, b);

    let mut cpu = Cpu::new();
    for (cycle, &instruction) in program.iter().enumerate() {
        let log = cpu.execute_cycle(a, b, instruction);
        if instruction.is_valid() {
            logger.log_cycle(cycle + 1, &log);
        } else {
            logger.log_cycle_invalid_signals(cycle + 1, &log);
        }
    }
    logger.end_program(program.len() + 1);

    let s = logger.contents().replace("\r\n", "\n");
    assert!(s.contains("Start of Program"));
    assert!(s.contains("IR = 10111100"));
    assert!(s.contains("IR = 01111100"));
    assert!(s.contains("IR = 11111100"));
    assert!(s.contains("sd = 00000000000000000000000100000000"));
    assert!(s.contains("sd = 11000000000000000000000000000000"));
    assert!(s.contains("n = 1"));
    assert!(s.contains("z = 0"));
    assert!(s.contains("co = 0"));
    assert!(s.contains("> Error, invalid control signals."));
    assert!(s.contains("> Line is empty, EOP."));
    assert!(!s.contains("IR = 11111100\nsd ="));
}

#[test]
fn cpu_counts_from_one() {
    let mut cpu = Cpu::new();
    let c = AluInstruction::from(0b00111100);
    assert_eq!(cpu.execute_cycle(1, 1, c).pc, 1);
    assert_eq!(cpu.execute_cycle(1, 1, c).pc, 2);
    let log = cpu.execute_cycle(2, 3, c);
    assert_eq!(log.pc, 3);
    assert_eq!(log.result.s, 5);
    assert_eq!(log.used_inputs.a, 2);
    assert_eq!(log.used_inputs.b, 3);
}
