use lib::alu::{Alu, AluInstruction, AluParseError};

#[test]
fn and_operation() {
    let ctrl = AluInstruction {
        sll8: false,
        sra1: false,
        f0: false,
        f1: false,
        ena: true,
        enb: true,
        inva: false,
        inc: false,
    };
    let (_, res) = Alu::execute(0b1100, 0b1010, ctrl);
    assert_eq!(res.s, 0b1000);
    assert_eq!(res.sd, res.s);
    assert!(!res.n);
    assert!(!res.z);
    assert!(!res.carry);
}

#[test]
fn or_operation() {
    let ctrl = AluInstruction {
        sll8: false,
        sra1: false,
        f0: false,
        f1: true,
        ena: true,
        enb: true,
        inva: false,
        inc: false,
    };
    let (_, res) = Alu::execute(0b1100, 0b1010, ctrl);
    assert_eq!(res.s, 0b1110);
    assert_eq!(res.sd, res.s);
}

#[test]
fn not_b_operation() {
    let ctrl = AluInstruction {
        sll8: false,
        sra1: false,
        f0: true,
        f1: false,
        ena: false,
        enb: true,
        inva: false,
        inc: false,
    };
    let (_, res) = Alu::execute(0, 0b00001111, ctrl);
    assert_eq!(res.s as u8, 0b11110000);
    assert_eq!(res.sd, res.s);
}

#[test]
fn invert_a() {
    let ctrl = AluInstruction {
        sll8: false,
        sra1: false,
        f0: false,
        f1: false,
        ena: true,
        enb: true,
        inva: true,
        inc: false,
    };
    let (_, res) = Alu::execute(0b0000, 0b1010, ctrl);
    assert_eq!(res.s, 0b1010);
    assert_eq!(res.sd, res.s);
}

#[test]
fn disable_a() {
    let ctrl = AluInstruction {
        sll8: false,
        sra1: false,
        f0: true,
        f1: true,
        ena: false,
        enb: true,
        inva: false,
        inc: false,
    };
    let (_, res) = Alu::execute(34, 35, ctrl);
    assert_eq!(res.s, 35);
    assert_eq!(res.sd, res.s);
}

#[test]
fn complete_sum() {
    let ctrl = AluInstruction {
        sll8: false,
        sra1: false,
        f0: true,
        f1: true,
        ena: true,
        enb: true,
        inva: false,
        inc: false,
    };
    let (_, res) = Alu::execute(34, 35, ctrl);
    assert_eq!(res.s, 69);
    assert_eq!(res.sd, res.s);
}

#[test]
fn sum_with_disable_a_and_b() {
    let ctrl = AluInstruction {
        sll8: false,
        sra1: false,
        f0: true,
        f1: true,
        ena: false,
        enb: false,
        inva: false,
        inc: false,
    };
    let (_, res) = Alu::execute(34, 35, ctrl);
    assert_eq!(res.s, 0);
    assert_eq!(res.sd, 0);
    assert!(res.z);
    assert!(!res.n);
}

#[test]
fn sll8_after_add() {
    let ctrl = AluInstruction::from(0b10111100);
    let (_, res) = Alu::execute(0x00000001, 0x80000000, ctrl);
    assert_eq!(res.s, 0x80000001);
    assert_eq!(res.sd, 0x80000001u32.wrapping_shl(8));
    assert!(!res.n);
    assert!(!res.z);
}

#[test]
fn sra1_after_add() {
    let ctrl = AluInstruction::from(0b01111100);
    let (_, res) = Alu::execute(0x00000001, 0x80000000, ctrl);
    assert_eq!(res.s, 0x80000001);
    let expected_sd = (res.s >> 1) | (res.s & 0x80000000);
    assert_eq!(res.sd, expected_sd);
    assert_eq!(res.sd, 0xC000_0000);
    assert!(res.n);
    assert!(!res.z);
}

#[test]
fn invalid_both_shifts_sd_is_dont_care_but_s_computed() {
    let ctrl = AluInstruction::from(0b11111100);
    assert!(!ctrl.is_valid());
    let (_, res) = Alu::execute(0x00000001, 0x80000000, ctrl);
    assert_eq!(res.s, 0x80000001);
    assert_eq!(res.sd, 0);
    assert!(!res.n);
    assert!(!res.z);
}

#[test]
fn from_str_parses_six_or_eight_bits() {
    let six: AluInstruction = "111110".parse().unwrap();
    let eight: AluInstruction = "00111110".parse().unwrap();
    assert_eq!(six, eight);
    assert_eq!(six, AluInstruction::from(0b00111110));
}

#[test]
fn from_str_round_trips_display() {
    let ctrl = AluInstruction {
        sll8: false,
        sra1: false,
        f0: true,
        f1: false,
        ena: true,
        enb: true,
        inva: false,
        inc: false,
    };
    let s = ctrl.to_string();
    assert_eq!(s.len(), 8);
    let parsed: AluInstruction = s.parse().unwrap();
    assert_eq!(parsed, ctrl);
}

#[test]
fn from_str_rejects_wrong_length() {
    assert_eq!(
        "11111".parse::<AluInstruction>().unwrap_err(),
        AluParseError::InvalidLength(5)
    );
    assert_eq!(
        "1111111".parse::<AluInstruction>().unwrap_err(),
        AluParseError::InvalidLength(7)
    );
}

#[test]
fn from_str_rejects_invalid_digits() {
    assert_eq!(
        "11111a".parse::<AluInstruction>().unwrap_err(),
        AluParseError::NonBinaryChar
    );
    assert_eq!(
        "0011110x".parse::<AluInstruction>().unwrap_err(),
        AluParseError::NonBinaryChar
    );
}

#[test]
fn add_with_increment_carries_out() {
    // 0xFFFF_FFFF + 0 + 1 overflows: s = 0 and the carry is set
    let ctrl = AluInstruction::from(0b00111101);
    let (inputs, res) = Alu::execute(0xFFFF_FFFF, 0, ctrl);
    assert_eq!(inputs.a, 0xFFFF_FFFF);
    assert_eq!(inputs.b, 0);
    assert_eq!(res.s, 0);
    assert!(res.carry);
    assert!(res.z);
}

#[test]
fn logic_with_increment_carries_only_from_the_increment() {
    // !B with B = 0 is 0xFFFF_FFFF; INC wraps it to 0 with a carry
    let ctrl = AluInstruction::from(0b00100101);
    let (_, res) = Alu::execute(0, 0, ctrl);
    assert_eq!(res.s, 0);
    assert!(res.carry);
    // OR without INC never carries
    let (_, res) = Alu::execute(0xFFFF_FFFF, 0xFFFF_FFFF, AluInstruction::from(0b00011100));
    assert_eq!(res.s, 0xFFFF_FFFF);
    assert!(!res.carry);
    assert!(res.n);
}

#[test]
fn inverted_a_is_reported_in_the_inputs() {
    // ENA off, INVA on: A reads as !0
    let ctrl = AluInstruction::from(0b00110010);
    let (inputs, res) = Alu::execute(5, 7, ctrl);
    assert_eq!(inputs.a, 0xFFFF_FFFF);
    assert_eq!(inputs.b, 0);
    assert_eq!(res.s, 0xFFFF_FFFF);
}

#[test]
fn sra1_keeps_the_sign_of_a_positive_value() {
    let ctrl = AluInstruction::from(0b01010100); // SRA1, B passed through via OR
    let (_, res) = Alu::execute(0, 6, ctrl);
    assert_eq!(res.s, 6);
    assert_eq!(res.sd, 3);
    assert!(!res.n);
}

#[test]
fn from_byte_and_bits_round_trip() {
    for b in 0..=255u8 {
        let c = AluInstruction::from(b);
        let text = c.to_string();
        assert_eq!(u8::from_str_radix(&text, 2).unwrap(), b);
        let back: AluInstruction = text.parse().unwrap();
        assert_eq!(back, c);
    }
}

#[test]
fn parse_trims_white_space() {
    let c: AluInstruction = "  00111100\t".parse().unwrap();
    assert_eq!(c, AluInstruction::from(0b00111100));
    assert_eq!(AluInstruction::parse(""), Err(AluParseError::InvalidLength(0)));
    // byte length, not character count
    assert_eq!(AluInstruction::parse("éé"), Err(AluParseError::InvalidLength(4)));
    assert_eq!(AluInstruction::parse("ééé"), Err(AluParseError::NonBinaryChar));
}

#[test]
fn parse_error_messages() {
    assert_eq!(
        AluParseError::InvalidLength(5).to_string(),
        "expected exactly 6 or 8 bits, but found: 5 >:(\n"
    );
    assert_eq!(AluParseError::NonBinaryChar.to_string(), "expected only binary digits :(\n");
}
