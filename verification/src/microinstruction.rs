//! Micro-instructions: their format, their execution on the data path, and
//! the C-bus that writes the result into the registers.
use vstd::prelude::*;
use crate::alu::{self, Alu, AluInstruction};
use crate::memory::{self, BBus, Memory, MemoryOperation};
use crate::register::{self, Registers};
use crate::text;

verus! {

/// A decoded micro-instruction.
#[derive(Debug, Clone, Copy)]
pub struct MicroInstruction {
    /// the 8-bit control word of the ALU
    pub alu: AluInstruction,
    /// the 9-bit mask of the registers written from the C-bus
    pub c_sel: u16,
    pub memory: MemoryOperation,
    /// the source of the B-bus
    pub b_sel: BBus,
}

/// One executed micro-instruction, with the state around it.
#[derive(Debug, Clone, Copy)]
pub struct MicroInstructionLog {
    pub cycle: usize,
    pub instruction: MicroInstruction,
    pub regs_before: Registers,
    pub regs_after: Registers,
    pub memory: Memory,
}

/// Why a micro-instruction could not be read from text.
#[derive(Debug, PartialEq, Eq, Structural)]
pub enum MicroInstructionParseError {
    InvalidLength(usize),
    NonBinaryChar,
    InvalidMemory(u8),
    InvalidBBus(u8),
}

/// Whether bit `bit` of the C-bus mask is set.
pub open spec fn selects(c_sel: u16, bit: u16) -> bool {
    c_sel & (1u16 << bit) != 0
}

/// The bits in `lo..hi` that `c_sel` sets, in increasing order.
pub open spec fn selected_bits(c_sel: u16, lo: int, hi: int) -> Seq<int>
    decreases hi - lo,
{
    if hi <= lo {
        Seq::empty()
    } else {
        selected_bits(c_sel, lo, hi - 1) + if selects(c_sel, (hi - 1) as u16) {
            seq![hi - 1]
        } else {
            Seq::empty()
        }
    }
}

/// The selected bits of `lo..hi` are those of `lo` followed by those of
/// `lo + 1 .. hi`.
pub proof fn lemma_selected_bits_prepend(c_sel: u16, lo: int, hi: int)
    requires
        lo < hi,
    ensures
        selected_bits(c_sel, lo, hi) == (if selects(c_sel, lo as u16) {
            seq![lo]
        } else {
            Seq::empty()
        }) + selected_bits(c_sel, lo + 1, hi),
    decreases hi - lo,
{
    if hi - 1 > lo {
        lemma_selected_bits_prepend(c_sel, lo, hi - 1);
        let head = if selects(c_sel, lo as u16) {
            seq![lo]
        } else {
            Seq::<int>::empty()
        };
        let tail = if selects(c_sel, (hi - 1) as u16) {
            seq![hi - 1]
        } else {
            Seq::<int>::empty()
        };
        assert(head + selected_bits(c_sel, lo + 1, hi - 1) + tail =~= head + (selected_bits(
            c_sel,
            lo + 1,
            hi - 1,
        ) + tail));
    } else {
        assert(selected_bits(c_sel, lo + 1, hi) =~= Seq::<int>::empty());
        assert(selected_bits(c_sel, lo, hi - 1) =~= Seq::<int>::empty());
    }
}

/// Whether bit `bit` (below `n`) is set in `c_sel`.
pub open spec fn selects_below(c_sel: u16, bit: u16, n: int) -> bool {
    bit < n && selects(c_sel, bit)
}

/// `regs` with `value` written into the registers of the C-bus bits below
/// `n` that `c_sel` sets (bit 0 `mar`, 1 `mdr`, 2 `pc`, 3 `sp`, 4 `lv`,
/// 5 `cpp`, 6 `tos`, 7 `opc`, 8 `h`).
pub open spec fn c_bus_apply_below(regs: Registers, c_sel: u16, value: u32, n: int) -> Registers {
    Registers {
        mar: if selects_below(c_sel, 0, n) { value } else { regs.mar },
        mdr: if selects_below(c_sel, 1, n) { value } else { regs.mdr },
        pc: if selects_below(c_sel, 2, n) { value } else { regs.pc },
        mbr: regs.mbr,
        sp: if selects_below(c_sel, 3, n) { value } else { regs.sp },
        lv: if selects_below(c_sel, 4, n) { value } else { regs.lv },
        cpp: if selects_below(c_sel, 5, n) { value } else { regs.cpp },
        tos: if selects_below(c_sel, 6, n) { value } else { regs.tos },
        opc: if selects_below(c_sel, 7, n) { value } else { regs.opc },
        h: if selects_below(c_sel, 8, n) { value } else { regs.h },
    }
}

/// `regs` with `value` written into every register that `c_sel` selects.
pub open spec fn c_bus_apply(regs: Registers, c_sel: u16, value: u32) -> Registers {
    c_bus_apply_below(regs, c_sel, value, 9)
}

/// The register at C-bus bit `bit`.
pub open spec fn c_register(regs: Registers, bit: int) -> u32 {
    if bit == 0 {
        regs.mar
    } else if bit == 1 {
        regs.mdr
    } else if bit == 2 {
        regs.pc
    } else if bit == 3 {
        regs.sp
    } else if bit == 4 {
        regs.lv
    } else if bit == 5 {
        regs.cpp
    } else if bit == 6 {
        regs.tos
    } else if bit == 7 {
        regs.opc
    } else {
        regs.h
    }
}

/// The upper-case name of the register at C-bus bit `bit`.
pub open spec fn c_register_name(bit: int) -> Seq<char> {
    if bit == 0 {
        "MAR"@
    } else if bit == 1 {
        "MDR"@
    } else if bit == 2 {
        "PC"@
    } else if bit == 3 {
        "SP"@
    } else if bit == 4 {
        "LV"@
    } else if bit == 5 {
        "CPP"@
    } else if bit == 6 {
        "TOS"@
    } else if bit == 7 {
        "OPC"@
    } else {
        "H"@
    }
}

/// The names of the registers that `c_sel` selects, from bit 0 up.
pub open spec fn c_names(c_sel: u16) -> Seq<Seq<char>> {
    selected_bits(c_sel, 0, 9).map_values(|b: int| c_register_name(b))
}

/// The value that the B-bus carries in a micro-instruction (`Mbr` is
/// sign-extended, `Mbru` zero-extended).
pub open spec fn micro_b_value(regs: Registers, b: BBus) -> u32 {
    match b {
        BBus::Mdr => regs.mdr,
        BBus::Pc => regs.pc,
        BBus::Mbr => register::sign_extend(regs.mbr),
        BBus::Mbru => regs.mbr as u32,
        BBus::Sp => regs.sp,
        BBus::Lv => regs.lv,
        BBus::Cpp => regs.cpp,
        BBus::Tos => regs.tos,
        BBus::Opc => regs.opc,
        BBus::H => regs.h,
    }
}

/// The registers after the read of a micro-instruction: `mdr` takes the
/// word at `mar`.
pub open spec fn after_read(instr: MicroInstruction, regs: Registers, mem: Seq<u32>) -> Registers {
    if instr.memory == MemoryOperation::Read {
        Registers { mdr: mem[regs.mar as int], ..regs }
    } else {
        regs
    }
}

/// The registers after a micro-instruction: the read, then the ALU on `h`
/// and the B-bus (of the registers before the cycle), whose `s` goes to the
/// registers selected on the C-bus.
#[verifier::opaque]
pub open spec fn micro_registers(instr: MicroInstruction, regs: Registers, mem: Seq<u32>) -> Registers {
    let value = alu::alu_spec(regs.h, micro_b_value(regs, instr.b_sel), instr.alu).s;
    c_bus_apply(after_read(instr, regs, mem), instr.c_sel, value)
}

/// The memory after a micro-instruction: a write stores `mdr` at `mar`,
/// both as they are after the C-bus.
#[verifier::opaque]
pub open spec fn micro_memory(instr: MicroInstruction, regs: Registers, mem: Seq<u32>) -> Seq<u32> {
    let after = micro_registers(instr, regs, mem);
    if instr.memory == MemoryOperation::Write {
        mem.update(after.mar as int, after.mdr)
    } else {
        mem
    }
}

/// The accesses of a micro-instruction stay inside the 16 words.
pub open spec fn micro_in_bounds(instr: MicroInstruction, regs: Registers, mem: Seq<u32>) -> bool {
    &&& instr.memory == MemoryOperation::Read ==> regs.mar < 16
    &&& instr.memory == MemoryOperation::Write ==> micro_registers(instr, regs, mem).mar < 16
}

/// The value that the B-bus carries (see [`micro_b_value`]).
fn micro_b_bus(regs: &Registers, b_sel: BBus) -> (r: u32)
    ensures
        r == micro_b_value(*regs, b_sel),
{
    match b_sel {
        BBus::Mdr => regs.mdr,
        BBus::Pc => regs.pc,
        BBus::Mbr => {
            if regs.mbr < 128 {
                regs.mbr as u32
            } else {
                regs.mbr as u32 + 0xFFFF_FF00
            }
        },
        BBus::Mbru => regs.mbr as u32,
        BBus::Sp => regs.sp,
        BBus::Lv => regs.lv,
        BBus::Cpp => regs.cpp,
        BBus::Tos => regs.tos,
        BBus::Opc => regs.opc,
        BBus::H => regs.h,
    }
}

impl MicroInstruction {
    /// Executes one micro-instruction cycle:
    /// 1. a read sets `mdr` to the word at `mar`;
    /// 2. the ALU computes on `h` and the B-bus;
    /// 3. the C-bus writes `s` into the selected registers;
    /// 4. a write stores `mdr` at the (new) `mar`.
    pub fn execute(&self, regs: &Registers, memory: &Memory) -> (r: (Registers, Memory))
        requires
            micro_in_bounds(*self, *regs, memory@),
        ensures
            r.0 == micro_registers(*self, *regs, memory@),
            r.1@ == micro_memory(*self, *regs, memory@),
    {
        reveal(micro_registers);
        reveal(micro_memory);
        let mut new_regs = *regs;
        let mut new_mem = *memory;
        if self.memory == MemoryOperation::Read {
            new_regs.mdr = memory.read(regs.mar);
        }
        let b_val: u32 = micro_b_bus(regs, self.b_sel);
        let (_, alu_result) = Alu::execute(regs.h, b_val, self.alu);
        let result = alu_result.s;
        if self.c_sel & (1 << 8) != 0 {
            new_regs.h = result;
        }
        if self.c_sel & (1 << 7) != 0 {
            new_regs.opc = result;
        }
        if self.c_sel & (1 << 6) != 0 {
            new_regs.tos = result;
        }
        if self.c_sel & (1 << 5) != 0 {
            new_regs.cpp = result;
        }
        if self.c_sel & (1 << 4) != 0 {
            new_regs.lv = result;
        }
        if self.c_sel & (1 << 3) != 0 {
            new_regs.sp = result;
        }
        if self.c_sel & (1 << 2) != 0 {
            new_regs.pc = result;
        }
        if self.c_sel & (1 << 1) != 0 {
            new_regs.mdr = result;
        }
        if self.c_sel & (1 << 0) != 0 {
            new_regs.mar = result;
        }
        if self.memory == MemoryOperation::Write {
            new_mem.write(new_regs.mar, new_regs.mdr);
        }
        (new_regs, new_mem)
    }
}

/// The names of the registers selected by the C-bus mask, from bit 0 (`MAR`)
/// up to bit 8 (`H`).
pub fn c_bus_names(c_sel: u16) -> (r: Vec<&'static str>)
    ensures
        r@.map_values(|s: &'static str| s@) == c_names(c_sel),
{
    let mut names: Vec<&'static str> = Vec::new();
    let mut bit: u16 = 0;
    while bit <= 8
        invariant
            bit <= 9,
            names@.map_values(|s: &'static str| s@) == selected_bits(c_sel, 0, bit as int).map_values(
                |b: int| c_register_name(b),
            ),
        decreases 9 - bit,
    {
        let ghost before = names@.map_values(|s: &'static str| s@);
        if (c_sel & (1 << bit)) != 0 {
            let name: &'static str = match bit {
                0 => "MAR",
                1 => "MDR",
                2 => "PC",
                3 => "SP",
                4 => "LV",
                5 => "CPP",
                6 => "TOS",
                7 => "OPC",
                _ => "H",
            };
            assert(name@ == c_register_name(bit as int));
            names.push(name);
            assert(names@.map_values(|s: &'static str| s@) =~= before.push(name@));
            assert(selected_bits(c_sel, 0, bit + 1) =~= selected_bits(c_sel, 0, bit as int).push(
                bit as int,
            ));
            assert(selected_bits(c_sel, 0, bit + 1).map_values(|b: int| c_register_name(b))
                =~= selected_bits(c_sel, 0, bit as int).map_values(|b: int| c_register_name(b)).push(
                c_register_name(bit as int),
            ));
        } else {
            assert(selected_bits(c_sel, 0, bit + 1) =~= selected_bits(c_sel, 0, bit as int));
        }
        bit = bit + 1;
    }
    names
}

/// Writes `sd` into the registers selected by the C-bus mask.
pub fn c_bus_write(regs: &mut Registers, c_sel: u16, sd: u32)
    ensures
        *final(regs) == c_bus_apply(*old(regs), c_sel, sd),
{
    let mut bit: u16 = 0;
    while bit <= 8
        invariant
            bit <= 9,
            *regs == c_bus_apply_below(*old(regs), c_sel, sd, bit as int),
        decreases 9 - bit,
    {
        if (c_sel & (1 << bit)) != 0 {
            match bit {
                0 => regs.mar = sd,
                1 => regs.mdr = sd,
                2 => regs.pc = sd,
                3 => regs.sp = sd,
                4 => regs.lv = sd,
                5 => regs.cpp = sd,
                6 => regs.tos = sd,
                7 => regs.opc = sd,
                _ => regs.h = sd,
            }
        }
        bit = bit + 1;
    }
}

/// The memory operation of two bits (at most 2).
pub open spec fn memory_operation_of(bits: u8) -> MemoryOperation {
    if bits == 0 {
        MemoryOperation::Idle
    } else if bits == 1 {
        MemoryOperation::Read
    } else {
        MemoryOperation::Write
    }
}

/// The B-bus source of a selector (at most 9).
pub open spec fn bbus_of(sel: u8) -> BBus {
    if sel == 0 {
        BBus::Mdr
    } else if sel == 1 {
        BBus::Pc
    } else if sel == 2 {
        BBus::Mbr
    } else if sel == 3 {
        BBus::Mbru
    } else if sel == 4 {
        BBus::Sp
    } else if sel == 5 {
        BBus::Lv
    } else if sel == 6 {
        BBus::Cpp
    } else if sel == 7 {
        BBus::Tos
    } else if sel == 8 {
        BBus::Opc
    } else {
        BBus::H
    }
}

/// A micro-instruction read from 23 binary digits: 8 for the ALU, 9 for the
/// C-bus mask, 2 for the memory operation (`11` is refused) and 4 for the
/// B-bus selector (above 9 is refused). A text with a character other than
/// `0` and `1` is refused as such before its length is considered.
pub open spec fn micro_parse(s: Seq<char>) -> Result<MicroInstruction, MicroInstructionParseError> {
    if !text::all_binary(s) {
        Err(MicroInstructionParseError::NonBinaryChar)
    } else if s.len() != 23 {
        Err(MicroInstructionParseError::InvalidLength(s.len() as usize))
    } else {
        let alu = alu::from_byte(text::bin_value(s.subrange(0, 8)) as u8);
        let c_sel = text::bin_value(s.subrange(8, 17)) as u16;
        let m = text::bin_value(s.subrange(17, 19)) as u8;
        let b = text::bin_value(s.subrange(19, 23)) as u8;
        if m == 3 {
            Err(MicroInstructionParseError::InvalidMemory(m))
        } else if b > 9 {
            Err(MicroInstructionParseError::InvalidBBus(b))
        } else {
            Ok(MicroInstruction { alu, c_sel, memory: memory_operation_of(m), b_sel: bbus_of(b) })
        }
    }
}

/// A micro-instruction as text: the ALU word, then the C-bus mask in 9
/// digits, the memory operation in 2 and the B-bus selector in 4, separated
/// by spaces.
pub open spec fn micro_text(i: MicroInstruction) -> Seq<char> {
    alu::bits_text(i.alu) + " "@ + text::bin_text(i.c_sel as nat, 9) + " "@ + text::bin_text(
        memory::memory_operation_bits(i.memory) as nat,
        2,
    ) + " "@ + text::bin_text(memory::bbus_selector(i.b_sel) as nat, 4)
}

/// The message of a parse error.
pub open spec fn micro_parse_error_text(e: MicroInstructionParseError) -> Seq<char> {
    match e {
        MicroInstructionParseError::InvalidLength(n) => "Tamanho inválido: esperado 21 caracteres, mas recebeu "@
            + text::dec_text(n as nat),
        MicroInstructionParseError::NonBinaryChar => "A instrução contém caracteres que não são binários (apenas '0' e '1' permitidos)"@,
        MicroInstructionParseError::InvalidMemory(m) => "invalid memory value: 0b"@ + text::bin_text(
            m as nat,
            2,
        ),
        MicroInstructionParseError::InvalidBBus(b) => "invalid b_bus value: "@ + text::dec_text(
            b as nat,
        ),
    }
}

impl MicroInstruction {
    /// Reads a micro-instruction (see [`micro_parse`]).
    pub fn parse(s: &str) -> (r: Result<MicroInstruction, MicroInstructionParseError>)
        ensures
            r == micro_parse(s@),
    {
        let v = text::chars_of(s);
        if !text::is_all_binary(&v) {
            return Err(MicroInstructionParseError::NonBinaryChar);
        }
        if v.len() != 23 {
            return Err(MicroInstructionParseError::InvalidLength(v.len()));
        }
        let alu_part = text::sub_chars(&v, 0, 8);
        let c_part = text::sub_chars(&v, 8, 17);
        let m_part = text::sub_chars(&v, 17, 19);
        let b_part = text::sub_chars(&v, 19, 23);
        proof {
            text::lemma_bin_value_fits(alu_part@, 8);
            text::lemma_bin_value_fits(c_part@, 9);
            text::lemma_bin_value_fits(m_part@, 2);
            text::lemma_bin_value_fits(b_part@, 4);
        }
        let alu = AluInstruction::from(text::bin_value_of(&alu_part) as u8);
        let c_sel = text::bin_value_of(&c_part) as u16;
        let m = text::bin_value_of(&m_part) as u8;
        let b = text::bin_value_of(&b_part) as u8;
        let memory = match m {
            0 => MemoryOperation::Idle,
            1 => MemoryOperation::Read,
            2 => MemoryOperation::Write,
            v => {
                return Err(MicroInstructionParseError::InvalidMemory(v));
            },
        };
        let b_sel = match b {
            0 => BBus::Mdr,
            1 => BBus::Pc,
            2 => BBus::Mbr,
            3 => BBus::Mbru,
            4 => BBus::Sp,
            5 => BBus::Lv,
            6 => BBus::Cpp,
            7 => BBus::Tos,
            8 => BBus::Opc,
            9 => BBus::H,
            v => {
                return Err(MicroInstructionParseError::InvalidBBus(v));
            },
        };
        Ok(MicroInstruction { alu, c_sel, b_sel, memory })
    }

    /// The micro-instruction as text (see [`micro_text`]).
    pub fn to_string(&self) -> (r: String)
        ensures
            r@ == micro_text(*self),
    {
        let mut out = self.alu.to_string();
        text::push_str(&mut out, " ");
        text::push_bin(&mut out, self.c_sel as u64, 9);
        text::push_str(&mut out, " ");
        text::push_bin(&mut out, self.memory.bits() as u64, 2);
        text::push_str(&mut out, " ");
        text::push_bin(&mut out, self.b_sel.selector() as u64, 4);
        out
    }
}

impl std::str::FromStr for MicroInstruction {
    type Err = MicroInstructionParseError;

    fn from_str(s: &str) -> (r: Result<Self, Self::Err>)
        ensures
            r == micro_parse(s@),
    {
        MicroInstruction::parse(s)
    }
}

impl MicroInstructionParseError {
    /// The error's message.
    pub fn to_string(&self) -> (r: String)
        ensures
            r@ == micro_parse_error_text(*self),
    {
        let mut out = String::new();
        match self {
            MicroInstructionParseError::InvalidLength(n) => {
                text::push_str(&mut out, "Tamanho inválido: esperado 21 caracteres, mas recebeu ");
                text::push_dec(&mut out, *n as u64);
            },
            MicroInstructionParseError::NonBinaryChar => {
                text::push_str(
                    &mut out,
                    "A instrução contém caracteres que não são binários (apenas '0' e '1' permitidos)",
                );
            },
            MicroInstructionParseError::InvalidMemory(m) => {
                text::push_str(&mut out, "invalid memory value: 0b");
                text::push_bin(&mut out, *m as u64, 2);
            },
            MicroInstructionParseError::InvalidBBus(b) => {
                text::push_str(&mut out, "invalid b_bus value: ");
                text::push_dec(&mut out, *b as u64);
            },
        }
        proof {
            let nb = "A instrução contém caracteres que não são binários (apenas '0' e '1' permitidos)"@;
            assert(Seq::<char>::empty() + nb =~= nb);
            assert(Seq::<char>::empty() + "invalid memory value: 0b"@ =~= "invalid memory value: 0b"@);
            assert(Seq::<char>::empty() + "invalid b_bus value: "@ =~= "invalid b_bus value: "@);
            assert(Seq::<char>::empty() + "Tamanho inválido: esperado 21 caracteres, mas recebeu "@
                =~= "Tamanho inválido: esperado 21 caracteres, mas recebeu "@);
        }
        out
    }
}

/// A bit is among the selected bits of `lo..hi` exactly when it lies in the
/// range and the mask sets it.
pub proof fn lemma_selected_bits_contains(c_sel: u16, lo: int, hi: int, bit: int)
    ensures
        selected_bits(c_sel, lo, hi).contains(bit) <==> (lo <= bit < hi && selects(
            c_sel,
            bit as u16,
        )),
    decreases hi - lo,
{
    if hi > lo {
        lemma_selected_bits_contains(c_sel, lo, hi - 1, bit);
        let pre = selected_bits(c_sel, lo, hi - 1);
        let last = if selects(c_sel, (hi - 1) as u16) {
            seq![hi - 1]
        } else {
            Seq::<int>::empty()
        };
        if (pre + last).contains(bit) {
            let k = choose|k: int| 0 <= k < (pre + last).len() && (pre + last)[k] == bit;
            if k < pre.len() {
                assert(pre[k] == bit);
            }
        }
        if pre.contains(bit) {
            let k = choose|k: int| 0 <= k < pre.len() && pre[k] == bit;
            assert((pre + last)[k] == bit);
        }
        if bit == hi - 1 && selects(c_sel, bit as u16) {
            assert((pre + last)[pre.len() as int] == bit);
        }
    } else {
        assert(selected_bits(c_sel, lo, hi) =~= Seq::<int>::empty());
    }
}

proof fn lemma_names_distinct(i: int, j: int)
    requires
        0 <= i < 9,
        0 <= j < 9,
        c_register_name(i) == c_register_name(j),
    ensures
        i == j,
{
    reveal_strlit("MAR");
    reveal_strlit("MDR");
    reveal_strlit("PC");
    reveal_strlit("SP");
    reveal_strlit("LV");
    reveal_strlit("CPP");
    reveal_strlit("TOS");
    reveal_strlit("OPC");
    reveal_strlit("H");
    let a = c_register_name(i);
    let b = c_register_name(j);
    assert(i == j || a.len() != b.len() || a[0] != b[0] || a[1] != b[1]);
}

/// The C-bus names and the C-bus writes agree: for each of the nine bits,
/// [`c_bus_names`] lists the register's name exactly when the mask sets the
/// bit, and then [`c_bus_write`] (and the execution of a micro-instruction)
/// puts the value into that register; otherwise the register keeps its
/// value.
pub proof fn lemma_c_bus_names_match_writes(c_sel: u16, regs: Registers, value: u32, bit: int)
    requires
        0 <= bit < 9,
    ensures
        c_names(c_sel).contains(c_register_name(bit)) <==> selects(c_sel, bit as u16),
        c_register(c_bus_apply(regs, c_sel, value), bit) == if selects(c_sel, bit as u16) {
            value
        } else {
            c_register(regs, bit)
        },
        c_bus_apply(regs, c_sel, value).mbr == regs.mbr,
{
    let sel = selected_bits(c_sel, 0, 9);
    let names = c_names(c_sel);
    lemma_selected_bits_contains(c_sel, 0, 9, bit);
    if selects(c_sel, bit as u16) {
        let k = choose|k: int| 0 <= k < sel.len() && sel[k] == bit;
        assert(names[k] == c_register_name(bit));
    }
    if names.contains(c_register_name(bit)) {
        let k = choose|k: int| 0 <= k < names.len() && names[k] == c_register_name(bit);
        lemma_selected_bits_range(c_sel, 0, 9);
        lemma_names_distinct(sel[k], bit);
        assert(sel.contains(bit));
    }
}

/// The selected bits of `lo..hi` lie in `lo..hi`.
pub proof fn lemma_selected_bits_range(c_sel: u16, lo: int, hi: int)
    ensures
        forall|k: int|
            0 <= k < selected_bits(c_sel, lo, hi).len() ==> lo <= #[trigger] selected_bits(
                c_sel,
                lo,
                hi,
            )[k] < hi,
    decreases hi - lo,
{
    if hi > lo {
        lemma_selected_bits_range(c_sel, lo, hi - 1);
        let pre = selected_bits(c_sel, lo, hi - 1);
        let all = selected_bits(c_sel, lo, hi);
        assert forall|k: int| 0 <= k < all.len() implies lo <= #[trigger] all[k] < hi by {
            if k < pre.len() {
                assert(all[k] == pre[k]);
            }
        }
    }
}

/// `s` in ASCII lower case.
pub open spec fn ascii_lower(s: Seq<char>) -> Seq<char> {
    s.map_values(|ch: char| if 'A' <= ch && ch <= 'Z' { ((ch as u32) + 32) as char } else { ch })
}

/// [`MicroInstruction::c_bus_targets`] lists the same registers as
/// [`c_bus_names`], in the opposite order and in lower case.
pub proof fn lemma_targets_are_names_reversed(c_sel: u16)
    ensures
        memory::c_targets(c_sel) == c_names(c_sel).reverse().map_values(|n: Seq<char>| ascii_lower(n)),
{
    let sel = selected_bits(c_sel, 0, 9);
    lemma_selected_bits_range(c_sel, 0, 9);
    let lhs = memory::c_targets(c_sel);
    let rhs = c_names(c_sel).reverse().map_values(|n: Seq<char>| ascii_lower(n));
    assert forall|k: int| 0 <= k < lhs.len() implies lhs[k] == rhs[k] by {
        let b = sel[sel.len() - 1 - k];
        assert(sel.reverse()[k] == b);
        lemma_lower_name(b);
    }
    assert(lhs =~= rhs);
}

proof fn lemma_lower_name(b: int)
    requires
        0 <= b < 9,
    ensures
        memory::c_target_name(b) == ascii_lower(c_register_name(b)),
{
    reveal_strlit("MAR");
    reveal_strlit("MDR");
    reveal_strlit("PC");
    reveal_strlit("SP");
    reveal_strlit("LV");
    reveal_strlit("CPP");
    reveal_strlit("TOS");
    reveal_strlit("OPC");
    reveal_strlit("H");
    reveal_strlit("mar");
    reveal_strlit("mdr");
    reveal_strlit("pc");
    reveal_strlit("sp");
    reveal_strlit("lv");
    reveal_strlit("cpp");
    reveal_strlit("tos");
    reveal_strlit("opc");
    reveal_strlit("h");
    assert(memory::c_target_name(b) =~= ascii_lower(c_register_name(b)));
}

/// What a micro-instruction leaves alone: `mbr` always; every register
/// whose C-bus bit is clear (but `mdr`, which a read loads); the memory unless
/// the operation writes, and then every word but the one at the new `mar`,
/// which receives the new `mdr`.
pub proof fn lemma_micro_frame(instr: MicroInstruction, regs: Registers, mem: Seq<u32>, bit: int, addr: int)
    requires
        0 <= bit < 9,
        bit != 1,
        0 <= addr < mem.len(),
    ensures
        micro_registers(instr, regs, mem).mbr == regs.mbr,
        !selects(instr.c_sel, bit as u16) ==> c_register(micro_registers(instr, regs, mem), bit)
            == c_register(regs, bit),
        !selects(instr.c_sel, 1) && instr.memory != MemoryOperation::Read ==> micro_registers(
            instr,
            regs,
            mem,
        ).mdr == regs.mdr,
        instr.memory != MemoryOperation::Write ==> micro_memory(instr, regs, mem) == mem,
        instr.memory == MemoryOperation::Write && micro_registers(instr, regs, mem).mar < mem.len()
            && addr != micro_registers(instr, regs, mem).mar ==> micro_memory(instr, regs, mem)[addr]
            == mem[addr],
        instr.memory == MemoryOperation::Write && micro_registers(instr, regs, mem).mar < mem.len()
            ==> micro_memory(instr, regs, mem)[micro_registers(instr, regs, mem).mar as int]
            == micro_registers(instr, regs, mem).mdr,
{
    reveal(micro_registers);
    reveal(micro_memory);
}

/// Where a micro-instruction's registers come from: every register whose
/// C-bus bit is set receives the ALU's core output `s`, computed on `h` and
/// the B-bus as they were before the cycle; otherwise `mdr` is, after a read,
/// the memory word at the `mar` held before the cycle, and keeps its value
/// when there is no read.
pub proof fn lemma_micro_sources(instr: MicroInstruction, regs: Registers, mem: Seq<u32>, bit: int)
    requires
        0 <= bit < 9,
    ensures
        selects(instr.c_sel, bit as u16) ==> c_register(micro_registers(instr, regs, mem), bit)
            == alu::alu_spec(regs.h, micro_b_value(regs, instr.b_sel), instr.alu).s,
        !selects(instr.c_sel, 1) && instr.memory == MemoryOperation::Read ==> micro_registers(
            instr,
            regs,
            mem,
        ).mdr == mem[regs.mar as int],
        !selects(instr.c_sel, 1) && instr.memory != MemoryOperation::Read ==> micro_registers(
            instr,
            regs,
            mem,
        ).mdr == regs.mdr,
{
    reveal(micro_registers);
}

/// The B-bus reads the register it names: for the selectors of a whole
/// register (all but the two `mbr` ones), the register the selector's name
/// denotes on the C-bus is the one whose value [`Registers::b_bus_decode`]
/// returns, so reading it after a C-bus write gives the value written when the
/// C-bus selects it, and the old value otherwise.
pub proof fn lemma_b_bus_reads_named_register(regs: Registers, c_sel: u16, v: u32, sel: u8) -> (bit: int)
    requires
        sel <= 8,
        sel != 2,
        sel != 3,
    ensures
        0 <= bit < 9,
        c_register_name(bit) == text::ascii_upper(register::b_bus_source_name(sel)),
        register::b_bus_value(regs, sel) == c_register(regs, bit),
        register::b_bus_value(c_bus_apply(regs, c_sel, v), sel) == if selects(c_sel, bit as u16) {
            v
        } else {
            register::b_bus_value(regs, sel)
        },
{
    reveal_strlit("MAR");
    reveal_strlit("MDR");
    reveal_strlit("PC");
    reveal_strlit("SP");
    reveal_strlit("LV");
    reveal_strlit("CPP");
    reveal_strlit("TOS");
    reveal_strlit("OPC");
    reveal_strlit("H");
    reveal_strlit("mdr");
    reveal_strlit("pc");
    reveal_strlit("sp");
    reveal_strlit("lv");
    reveal_strlit("cpp");
    reveal_strlit("tos");
    reveal_strlit("opc");
    reveal_strlit("h");
    let bit: int = if sel == 0 {
        1
    } else if sel == 1 {
        2
    } else if sel == 4 {
        3
    } else if sel == 5 {
        4
    } else if sel == 6 {
        5
    } else if sel == 7 {
        6
    } else {
        7
    };
    assert(c_register_name(bit) =~= text::ascii_upper(register::b_bus_source_name(sel)));
    bit
}

/// The `mbr` selectors of [`Registers::b_bus_decode`]: selector 2 gives the
/// byte as it is, selector 3 the byte sign-extended (same low byte, the top
/// bit copies bit 7); no C-bus write changes them; selectors above 8 read 0.
pub proof fn lemma_b_bus_mbr(regs: Registers, c_sel: u16, v: u32, sel: u8)
    ensures
        register::b_bus_value(regs, 2) == regs.mbr,
        register::b_bus_value(regs, 3) % 256 == regs.mbr,
        (register::b_bus_value(regs, 3) >= 0x8000_0000) == (regs.mbr >= 128),
        regs.mbr < 128 ==> register::b_bus_value(regs, 3) == regs.mbr,
        register::b_bus_value(c_bus_apply(regs, c_sel, v), 2) == register::b_bus_value(regs, 2),
        register::b_bus_value(c_bus_apply(regs, c_sel, v), 3) == register::b_bus_value(regs, 3),
        sel > 8 ==> register::b_bus_value(regs, sel) == 0,
{
}

/// The B-bus of a micro-instruction reads the register it names: for every
/// source but the two `mbr` ones, the register that the source's name
/// denotes on the C-bus is the one whose value the ALU receives; `Mbr` gives
/// the byte sign-extended and `Mbru` the byte as it is.
pub proof fn lemma_micro_b_reads_named_register(regs: Registers, b: BBus) -> (bit: int)
    requires
        b != BBus::Mbr,
        b != BBus::Mbru,
    ensures
        0 <= bit < 9,
        c_register_name(bit) == text::ascii_upper(memory::bbus_name(b)),
        micro_b_value(regs, b) == c_register(regs, bit),
        micro_b_value(regs, BBus::Mbru) == regs.mbr,
        micro_b_value(regs, BBus::Mbr) % 256 == regs.mbr,
        (micro_b_value(regs, BBus::Mbr) >= 0x8000_0000) == (regs.mbr >= 128),
{
    reveal_strlit("MAR");
    reveal_strlit("MDR");
    reveal_strlit("PC");
    reveal_strlit("SP");
    reveal_strlit("LV");
    reveal_strlit("CPP");
    reveal_strlit("TOS");
    reveal_strlit("OPC");
    reveal_strlit("H");
    reveal_strlit("mdr");
    reveal_strlit("pc");
    reveal_strlit("sp");
    reveal_strlit("lv");
    reveal_strlit("cpp");
    reveal_strlit("tos");
    reveal_strlit("opc");
    reveal_strlit("h");
    let bit: int = match b {
        BBus::Mdr => 1,
        BBus::Pc => 2,
        BBus::Sp => 3,
        BBus::Lv => 4,
        BBus::Cpp => 5,
        BBus::Tos => 6,
        BBus::Opc => 7,
        _ => 8,
    };
    assert(c_register_name(bit) =~= text::ascii_upper(memory::bbus_name(b)));
    bit
}

} // verus!
