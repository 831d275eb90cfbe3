//! The arithmetic logic unit of MIC-1 and its 8-bit control word.
use vstd::prelude::*;
use crate::text;

verus! {

/// Marker type that scopes the ALU operation; the ALU keeps no state.
pub struct Alu;

/// What the ALU produces: the core result `s`, the shifted output `sd`,
/// the flags `n` and `z` (taken from `sd`) and the carry out.
#[derive(Debug)]
pub struct AluResult {
    pub s: u32,
    pub sd: u32,
    pub carry: bool,
    pub n: bool,
    pub z: bool,
}

/// The control word of the ALU, most significant bit first:
/// `SLL8 SRA1 F0 F1 ENA ENB INVA INC`.
///
/// `F0 F1` select the operation: `00` is `A & B`, `01` is `A | B`,
/// `10` is `!B` and `11` is `A + B`. `ENA`/`ENB` enable the inputs (a
/// disabled input reads as `0`), `INVA` inverts `A` before the operation and
/// `INC` adds one to the result. `SLL8` shifts `s` left by eight bits and
/// `SRA1` shifts it right arithmetically by one; they must not both be set.
#[derive(Clone, Copy, Debug, PartialEq, Eq, Structural)]
pub struct AluInstruction {
    pub sll8: bool,
    pub sra1: bool,
    pub f0: bool,
    pub f1: bool,
    pub ena: bool,
    pub enb: bool,
    pub inva: bool,
    pub inc: bool,
}

/// The inputs `a` and `b` as the ALU used them (after enabling and inverting).
pub struct Inputs {
    pub a: u32,
    pub b: u32,
}

/// The value `2^32`.
pub open spec fn word_modulus() -> int {
    0x1_0000_0000
}

/// The `A` operand after `ENA` and `INVA`.
pub open spec fn operand_a(a: u32, control: AluInstruction) -> u32 {
    let enabled: u32 = if control.ena { a } else { 0 };
    if control.inva { (0xFFFF_FFFFu32 - enabled) as u32 } else { enabled }
}

/// The `B` operand after `ENB`.
pub open spec fn operand_b(b: u32, control: AluInstruction) -> u32 {
    if control.enb { b } else { 0 }
}

/// The result of the selected operation, as an unbounded integer, plus one
/// when `INC` is set.
pub open spec fn alu_total(a: u32, b: u32, control: AluInstruction) -> int {
    let x = operand_a(a, control);
    let y = operand_b(b, control);
    let op: int = if !control.f0 && !control.f1 {
        (x & y) as int
    } else if !control.f0 && control.f1 {
        (x | y) as int
    } else if control.f0 && !control.f1 {
        0xFFFF_FFFF - y
    } else {
        x + y
    };
    op + if control.inc { 1int } else { 0int }
}

/// The core output `s`: the total modulo `2^32`.
pub open spec fn alu_s(a: u32, b: u32, control: AluInstruction) -> u32 {
    (alu_total(a, b, control) % word_modulus()) as u32
}

/// The carry out: the total does not fit in 32 bits.
pub open spec fn alu_carry(a: u32, b: u32, control: AluInstruction) -> bool {
    alu_total(a, b, control) >= word_modulus()
}

/// The shifter applied to `s` (for a valid control word).
pub open spec fn shifted(s: u32, control: AluInstruction) -> u32 {
    if control.sll8 {
        ((s * 256) % word_modulus()) as u32
    } else if control.sra1 {
        (s / 2 + if s >= 0x8000_0000 { 0x8000_0000int } else { 0int }) as u32
    } else {
        s
    }
}

/// The whole ALU as a function of its inputs.
pub open spec fn alu_spec(a: u32, b: u32, control: AluInstruction) -> AluResult {
    let s = alu_s(a, b, control);
    let carry = alu_carry(a, b, control);
    if control.sll8 && control.sra1 {
        AluResult { s, sd: 0, carry, n: false, z: false }
    } else {
        let sd = shifted(s, control);
        AluResult { s, sd, carry, n: sd >= 0x8000_0000, z: sd == 0 }
    }
}

impl AluInstruction {
    /// `SLL8` and `SRA1` must not both be set.
    pub open spec fn valid(self) -> bool {
        !(self.sll8 && self.sra1)
    }

    /// `SLL8` and `SRA1` must not both be set.
    pub fn is_valid(self) -> (r: bool)
        ensures
            r == self.valid(),
    {
        !(self.sll8 && self.sra1)
    }
}

impl Alu {
    /// Runs the ALU on `a` and `b` under `control`; returns the inputs as
    /// they were used and the result.
    pub fn execute(a: u32, b: u32, control: AluInstruction) -> (r: (Inputs, AluResult))
        ensures
            r.0.a == operand_a(a, control),
            r.0.b == operand_b(b, control),
            r.1 == alu_spec(a, b, control),
    {
        let enabled: u32 = if control.ena { a } else { 0 };
        let a: u32 = if control.inva {
            assert(!enabled == (0xFFFF_FFFFu32 - enabled) as u32) by (bit_vector);
            !enabled
        } else {
            enabled
        };
        let b: u32 = if control.enb { b } else { 0 };
        let op: u64 = if !control.f0 && !control.f1 {
            (a & b) as u64
        } else if !control.f0 && control.f1 {
            (a | b) as u64
        } else if control.f0 && !control.f1 {
            assert(!b == (0xFFFF_FFFFu32 - b) as u32) by (bit_vector);
            (!b) as u64
        } else {
            a as u64 + b as u64
        };
        let total: u64 = if control.inc { op + 1 } else { op };
        let s: u32 = (total % 0x1_0000_0000) as u32;
        let carry: bool = total >= 0x1_0000_0000;
        if control.sll8 && control.sra1 {
            return (Inputs { a, b }, AluResult { s, sd: 0, carry, n: false, z: false });
        }
        let sd: u32 = if control.sll8 {
            let r = s.wrapping_shl(8);
            assert(r == s << 8u32);
            assert(s << 8u32 == ((s * 256) % 0x1_0000_0000) as u32) by (bit_vector);
            r
        } else if control.sra1 {
            assert((s >> 1u32) | (s & 0x8000_0000u32) == (s / 2 + if s >= 0x8000_0000u32 {
                0x8000_0000u32
            } else {
                0u32
            }) as u32) by (bit_vector);
            (s >> 1) | (s & 0x8000_0000)
        } else {
            s
        };
        assert(((sd >> 31u32) != 0u32) == (sd >= 0x8000_0000u32)) by (bit_vector);
        let n: bool = (sd >> 31) != 0;
        let z: bool = sd == 0;
        (Inputs { a, b }, AluResult { s, sd, carry, n, z })
    }
}

/// Why a control word could not be read from text.
#[derive(Debug, PartialEq, Eq, Structural)]
pub enum AluParseError {
    /// The trimmed text is not 6 or 8 bytes long; holds its length in bytes.
    InvalidLength(usize),
    /// The text holds a character other than `0` and `1`.
    NonBinaryChar,
}

/// The control word whose bits, most significant first, are those of `b`.
pub open spec fn from_byte(b: u8) -> AluInstruction {
    AluInstruction {
        sll8: b & 0x80 != 0,
        sra1: b & 0x40 != 0,
        f0: b & 0x20 != 0,
        f1: b & 0x10 != 0,
        ena: b & 0x08 != 0,
        enb: b & 0x04 != 0,
        inva: b & 0x02 != 0,
        inc: b & 0x01 != 0,
    }
}

/// The weight of a set bit.
pub open spec fn bit_weight(set: bool, weight: nat) -> nat {
    if set {
        weight
    } else {
        0
    }
}

/// The byte of the control word's bits, most significant first.
pub open spec fn to_byte(c: AluInstruction) -> u8 {
    (bit_weight(c.sll8, 128) + bit_weight(c.sra1, 64) + bit_weight(c.f0, 32) + bit_weight(c.f1, 16)
        + bit_weight(c.ena, 8) + bit_weight(c.enb, 4) + bit_weight(c.inva, 2) + bit_weight(
        c.inc,
        1,
    )) as u8
}

/// The digit of a bit.
pub open spec fn bit_char(b: bool) -> char {
    if b {
        '1'
    } else {
        '0'
    }
}

/// The control word written as eight binary digits, `SLL8` first.
pub open spec fn bits_text(c: AluInstruction) -> Seq<char> {
    seq![
        bit_char(c.sll8),
        bit_char(c.sra1),
        bit_char(c.f0),
        bit_char(c.f1),
        bit_char(c.ena),
        bit_char(c.enb),
        bit_char(c.inva),
        bit_char(c.inc),
    ]
}

/// A control word read from text: trimmed, it must be exactly 6 or 8 bytes
/// long, then only binary digits; six digits leave `SLL8` and `SRA1` clear.
pub open spec fn alu_parse(s: Seq<char>) -> Result<AluInstruction, AluParseError> {
    let t = text::trim(s);
    if text::utf8_len(t) != 6 && text::utf8_len(t) != 8 {
        Err(AluParseError::InvalidLength(text::utf8_len(t) as usize))
    } else if !text::all_binary(t) {
        Err(AluParseError::NonBinaryChar)
    } else {
        Ok(from_byte(text::bin_value(t) as u8))
    }
}

impl From<u8> for AluInstruction {
    fn from(bits: u8) -> (r: Self)
        ensures
            r == from_byte(bits),
    {
        AluInstruction {
            sll8: bits & 0x80 != 0,
            sra1: bits & 0x40 != 0,
            f0: bits & 0x20 != 0,
            f1: bits & 0x10 != 0,
            ena: bits & 0x08 != 0,
            enb: bits & 0x04 != 0,
            inva: bits & 0x02 != 0,
            inc: bits & 0x01 != 0,
        }
    }
}

impl vstd::std_specs::convert::FromSpecImpl<u8> for AluInstruction {
    open spec fn obeys_from_spec() -> bool {
        true
    }

    open spec fn from_spec(v: u8) -> Self {
        from_byte(v)
    }
}

fn bit_digit(b: bool) -> (r: char)
    ensures
        r == bit_char(b),
{
    if b {
        '1'
    } else {
        '0'
    }
}

impl AluInstruction {
    /// The control word as eight binary digits, `SLL8` first.
    pub fn to_string(&self) -> (r: String)
        ensures
            r@ == bits_text(*self),
    {
        let mut out = String::new();
        let mut v: Vec<char> = Vec::new();
        v.push(bit_digit(self.sll8));
        v.push(bit_digit(self.sra1));
        v.push(bit_digit(self.f0));
        v.push(bit_digit(self.f1));
        v.push(bit_digit(self.ena));
        v.push(bit_digit(self.enb));
        v.push(bit_digit(self.inva));
        v.push(bit_digit(self.inc));
        text::push_chars(&mut out, &v);
        assert(out@ =~= bits_text(*self));
        out
    }

    /// Reads a control word from the characters `v` (see [`alu_parse`]).
    pub fn parse_chars(v: &Vec<char>) -> (r: Result<AluInstruction, AluParseError>)
        requires
            text::utf8_len(v@) <= usize::MAX,
        ensures
            r == alu_parse(v@),
    {
        let t = text::trim_chars(v);
        proof {
            text::lemma_utf8_len_trim(v@);
        }
        let n = text::utf8_count(&t);
        if n != 6 && n != 8 {
            return Err(AluParseError::InvalidLength(n));
        }
        if !text::is_all_binary(&t) {
            return Err(AluParseError::NonBinaryChar);
        }
        proof {
            text::lemma_utf8_len_binary(t@);
        }
        proof {
            text::lemma_bin_value_fits(t@, 8);
        }
        let bits = text::bin_value_of(&t) as u8;
        Ok(AluInstruction::from(bits))
    }

    /// Reads a control word from text: exactly 6 or 8 binary digits once
    /// trimmed; six digits leave `SLL8` and `SRA1` clear.
    pub fn parse(s: &str) -> (r: Result<AluInstruction, AluParseError>)
        ensures
            r == alu_parse(s@),
    {
        let v = text::chars_in_bounds(s);
        AluInstruction::parse_chars(&v)
    }
}

impl std::str::FromStr for AluInstruction {
    type Err = AluParseError;

    fn from_str(s: &str) -> (r: Result<Self, Self::Err>)
        ensures
            r == alu_parse(s@),
    {
        AluInstruction::parse(s)
    }
}

/// The message of a parse error.
pub open spec fn alu_parse_error_text(e: AluParseError) -> Seq<char> {
    match e {
        AluParseError::InvalidLength(n) => "expected exactly 6 or 8 bits, but found: "@ + text::dec_text(
            n as nat,
        ) + " >:(\n"@,
        AluParseError::NonBinaryChar => "expected only binary digits :(\n"@,
    }
}

impl AluParseError {
    /// The error's message, ending with a line break.
    pub fn to_string(&self) -> (r: String)
        ensures
            r@ == alu_parse_error_text(*self),
    {
        let mut out = String::new();
        match self {
            AluParseError::InvalidLength(n) => {
                text::push_str(&mut out, "expected exactly 6 or 8 bits, but found: ");
                text::push_dec(&mut out, *n as u64);
                text::push_str(&mut out, " >:(\n");
            },
            AluParseError::NonBinaryChar => {
                text::push_str(&mut out, "expected only binary digits :(\n");
            },
        }
        proof {
            assert(Seq::<char>::empty() + "expected only binary digits :(\n"@ =~= "expected only binary digits :(\n"@);
        }
        out
    }
}

proof fn lemma_byte_bits(
    b7: bool,
    b6: bool,
    b5: bool,
    b4: bool,
    b3: bool,
    b2: bool,
    b1: bool,
    b0: bool,
    x: u8,
)
    by (bit_vector)
    requires
        x == (if b7 { 128u8 } else { 0u8 }) + (if b6 { 64u8 } else { 0u8 }) + (if b5 {
            32u8
        } else {
            0u8
        }) + (if b4 { 16u8 } else { 0u8 }) + (if b3 { 8u8 } else { 0u8 }) + (if b2 {
            4u8
        } else {
            0u8
        }) + (if b1 { 2u8 } else { 0u8 }) + (if b0 { 1u8 } else { 0u8 }),
    ensures
        (x & 0x80 != 0) == b7,
        (x & 0x40 != 0) == b6,
        (x & 0x20 != 0) == b5,
        (x & 0x10 != 0) == b4,
        (x & 0x08 != 0) == b3,
        (x & 0x04 != 0) == b2,
        (x & 0x02 != 0) == b1,
        (x & 0x01 != 0) == b0,
{
}

proof fn lemma_bits_byte(x: u8)
    by (bit_vector)
    ensures
        x == (if x & 0x80 != 0 { 128u8 } else { 0u8 }) + (if x & 0x40 != 0 { 64u8 } else { 0u8 })
            + (if x & 0x20 != 0 { 32u8 } else { 0u8 }) + (if x & 0x10 != 0 { 16u8 } else { 0u8 })
            + (if x & 0x08 != 0 { 8u8 } else { 0u8 }) + (if x & 0x04 != 0 { 4u8 } else { 0u8 })
            + (if x & 0x02 != 0 { 2u8 } else { 0u8 }) + (if x & 0x01 != 0 { 1u8 } else { 0u8 }),
{
}

/// A control word and its byte determine each other: reading the bits of a
/// byte and packing them again gives the byte back, and the other way round.
pub proof fn lemma_byte_round_trip(b: u8, c: AluInstruction)
    ensures
        to_byte(from_byte(b)) == b,
        from_byte(to_byte(c)) == c,
{
    lemma_bits_byte(b);
    let x = to_byte(c);
    lemma_byte_bits(c.sll8, c.sra1, c.f0, c.f1, c.ena, c.enb, c.inva, c.inc, x);
}

/// Reading back the eight digits that [`AluInstruction::to_string`] writes
/// gives the same control word.
pub proof fn lemma_text_round_trip(c: AluInstruction)
    ensures
        alu_parse(bits_text(c)) == Ok::<AluInstruction, AluParseError>(c),
{
    let t = bits_text(c);
    assert(text::all_binary(t));
    text::lemma_trim_binary(t);
    text::lemma_utf8_len_binary(t);
    reveal_with_fuel(text::bin_value, 9);
    assert(t.drop_last() =~= t.take(7));
    assert(t.take(7).drop_last() =~= t.take(6));
    assert(t.take(6).drop_last() =~= t.take(5));
    assert(t.take(5).drop_last() =~= t.take(4));
    assert(t.take(4).drop_last() =~= t.take(3));
    assert(t.take(3).drop_last() =~= t.take(2));
    assert(t.take(2).drop_last() =~= t.take(1));
    assert(t.take(1).drop_last() =~= t.take(0));
    assert(text::bin_value(t) == to_byte(c));
    lemma_byte_round_trip(0, c);
}

/// A six-digit control word reads the same as the eight-digit one with two
/// leading zeros (`SLL8` and `SRA1` clear).
pub proof fn lemma_six_digits_are_eight(t: Seq<char>)
    requires
        t.len() == 6,
        text::all_binary(t),
    ensures
        alu_parse(t) == alu_parse(seq!['0', '0'] + t),
        alu_parse(t) is Ok,
        !alu_parse(t)->Ok_0.sll8,
        !alu_parse(t)->Ok_0.sra1,
{
    let z = seq!['0', '0'];
    let u = z + t;
    assert(text::all_binary(u));
    text::lemma_trim_binary(t);
    text::lemma_trim_binary(u);
    text::lemma_utf8_len_binary(t);
    text::lemma_utf8_len_binary(u);
    text::lemma_bin_value_leading_zeros(z, t);
    text::lemma_bin_value_fits(t, 6);
    let v = text::bin_value(t) as u8;
    assert(v < 64);
    assert(v & 0x80 == 0 && v & 0x40 == 0) by (bit_vector)
        requires
            v < 64,
    ;
}

/// The flags follow the shifted output: for a valid control word `n` is its
/// top bit and `z` says whether it is zero; with both shifts set `sd` is zero
/// and both flags are clear. The core output `s` and the carry do not depend
/// on the shifter.
pub proof fn lemma_flags_follow_sd(a: u32, b: u32, control: AluInstruction)
    ensures
        control.valid() ==> alu_spec(a, b, control).n == (alu_spec(a, b, control).sd >= 0x8000_0000),
        control.valid() ==> alu_spec(a, b, control).z == (alu_spec(a, b, control).sd == 0),
        !control.valid() ==> alu_spec(a, b, control).sd == 0 && !alu_spec(a, b, control).n
            && !alu_spec(a, b, control).z,
        alu_spec(a, b, control).s == alu_spec(a, b, AluInstruction { sll8: false, sra1: false, ..control }).s,
        alu_spec(a, b, control).carry == alu_spec(a, b, AluInstruction { sll8: false, sra1: false, ..control }).carry,
        !control.sll8 && !control.sra1 ==> alu_spec(a, b, control).sd == alu_spec(a, b, control).s,
{
}

} // verus!
