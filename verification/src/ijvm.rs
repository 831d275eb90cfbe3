//! A small IJVM front end: instructions read from text, translated into
//! micro-instructions and run on the data path, with the log of the run.
use vstd::prelude::*;
use crate::alu::{self, AluInstruction};
use crate::logger::{self, Logger};
use crate::memory::{self, BBus, Memory, MemoryOperation};
use crate::microinstruction::{self, c_bus_names, MicroInstruction};
use crate::register::{self, RegisterParseError, Registers};
use crate::text;

verus! {

/// An IJVM instruction.
#[derive(Debug, Clone, Copy, PartialEq, Eq, Structural)]
pub enum IjvmInstruction {
    /// pushes a byte
    Bipush(u8),
    /// duplicates the top of the stack
    Dup,
    /// pushes a local variable
    ILoad(u8),
}

/// Why an IJVM program could not be read.
#[derive(Debug)]
pub enum IjvmParseError {
    Io(std::io::Error),
    /// The line (counted from 0) that is not an instruction, and why.
    InvalidLine { line: usize, message: String },
}

/// Why an IJVM run could not take place.
#[derive(Debug)]
pub enum ExecuteError {
    Ijvm(IjvmParseError),
    Registers(RegisterParseError),
    Io(std::io::Error),
}

/// An instruction of an opcode whose upper case is `upper`, whose own text
/// is `op`, and whose argument is `arg`: `BIPUSH` takes 8 binary digits,
/// `DUP` nothing, `ILOAD` a decimal byte.
pub open spec fn decode_spec(upper: Seq<char>, op: Seq<char>, arg: Option<Seq<char>>) -> Result<
    IjvmInstruction,
    Seq<char>,
> {
    if upper == "BIPUSH"@ {
        match arg {
            None => Err("BIPUSH requires 8-bit binary argument"@),
            Some(a) => if !(a.len() == 8 && text::all_binary(a)) {
                Err("BIPUSH argument must be 8-bit binary"@)
            } else {
                Ok(IjvmInstruction::Bipush(text::bin_value(a) as u8))
            },
        }
    } else if upper == "DUP"@ {
        Ok(IjvmInstruction::Dup)
    } else if upper == "ILOAD"@ {
        match arg {
            None => Err("ILOAD requires numeric argument"@),
            Some(a) => match text::parse_u8(a) {
                Some(v) => Ok(IjvmInstruction::ILoad(v)),
                None => Err("ILOAD argument must be integer"@),
            },
        }
    } else {
        Err("unknown opcode: "@ + op)
    }
}

/// An instruction read from a line: the first word is the opcode (in any
/// case), the second its argument.
pub open spec fn ijvm_parse(s: Seq<char>) -> Result<IjvmInstruction, Seq<char>> {
    let raw = text::trim(s);
    if raw.len() == 0 {
        Err("empty line"@)
    } else {
        let ws = text::words(raw);
        if ws.len() == 0 {
            Err("missing opcode"@)
        } else {
            decode_spec(
                text::uppercase(ws[0]),
                ws[0],
                if ws.len() > 1 {
                    Some(ws[1])
                } else {
                    None
                },
            )
        }
    }
}

/// The text of an optional argument.
pub open spec fn opt_view(arg: Option<&str>) -> Option<Seq<char>> {
    match arg {
        Some(a) => Some(a@),
        None => None,
    }
}

fn literal_chars(s: &str) -> (r: Vec<char>)
    ensures
        r@ == s@,
{
    text::chars_of(s)
}

impl IjvmInstruction {
    /// The instruction of the opcode `op`, whose upper case is `upper`, with
    /// the argument `arg` (see [`decode_spec`]).
    pub fn decode(upper: &str, op: &str, arg: Option<&str>) -> (r: Result<IjvmInstruction, String>)
        ensures
            match r {
                Ok(i) => decode_spec(upper@, op@, opt_view(arg)) == Ok::<
                    IjvmInstruction,
                    Seq<char>,
                >(i),
                Err(m) => decode_spec(upper@, op@, opt_view(arg)) == Err::<
                    IjvmInstruction,
                    Seq<char>,
                >(m@),
            },
    {
        let u = text::chars_of(upper);
        if text::chars_eq(&u, &literal_chars("BIPUSH")) {
            match arg {
                None => Err(text::string_of(&literal_chars("BIPUSH requires 8-bit binary argument"))),
                Some(a) => {
                    let v = text::chars_of(a);
                    if !(v.len() == 8 && text::is_all_binary(&v)) {
                        Err(text::string_of(&literal_chars("BIPUSH argument must be 8-bit binary")))
                    } else {
                        proof {
                            text::lemma_bin_value_fits(v@, 8);
                        }
                        Ok(IjvmInstruction::Bipush(text::bin_value_of(&v) as u8))
                    }
                },
            }
        } else if text::chars_eq(&u, &literal_chars("DUP")) {
            Ok(IjvmInstruction::Dup)
        } else if text::chars_eq(&u, &literal_chars("ILOAD")) {
            match arg {
                None => Err(text::string_of(&literal_chars("ILOAD requires numeric argument"))),
                Some(a) => {
                    let v = text::chars_of(a);
                    match text::parse_u8_chars(&v) {
                        Some(x) => Ok(IjvmInstruction::ILoad(x)),
                        None => Err(text::string_of(&literal_chars("ILOAD argument must be integer"))),
                    }
                },
            }
        } else {
            let mut m = text::string_of(&literal_chars("unknown opcode: "));
            text::push_str(&mut m, op);
            Err(m)
        }
    }

    /// Reads an instruction from a line (see [`ijvm_parse`]); the error is a
    /// message.
    pub fn parse(s: &str) -> (r: Result<IjvmInstruction, String>)
        ensures
            match r {
                Ok(i) => ijvm_parse(s@) == Ok::<IjvmInstruction, Seq<char>>(i),
                Err(m) => ijvm_parse(s@) == Err::<IjvmInstruction, Seq<char>>(m@),
            },
    {
        let v = text::chars_of(s);
        IjvmInstruction::parse_chars(&v)
    }

    fn parse_chars(v: &Vec<char>) -> (r: Result<IjvmInstruction, String>)
        ensures
            match r {
                Ok(i) => ijvm_parse(v@) == Ok::<IjvmInstruction, Seq<char>>(i),
                Err(m) => ijvm_parse(v@) == Err::<IjvmInstruction, Seq<char>>(m@),
            },
    {
        let raw = text::trim_chars(v);
        if raw.len() == 0 {
            return Err(text::string_of(&literal_chars("empty line")));
        }
        let ws = text::split_words(&raw);
        if ws.len() == 0 {
            return Err(text::string_of(&literal_chars("missing opcode")));
        }
        assert(ws@[0]@ == text::words(raw@)[0]);
        let op = text::string_of(&ws[0]);
        let upper = text::to_uppercase(op.as_str());
        if ws.len() > 1 {
            assert(ws@[1]@ == text::words(raw@)[1]);
            let arg = text::string_of(&ws[1]);
            IjvmInstruction::decode(upper.as_str(), op.as_str(), Some(arg.as_str()))
        } else {
            IjvmInstruction::decode(upper.as_str(), op.as_str(), None)
        }
    }
}

impl std::str::FromStr for IjvmInstruction {
    type Err = String;

    fn from_str(s: &str) -> (r: Result<Self, Self::Err>)
        ensures
            match r {
                Ok(i) => ijvm_parse(s@) == Ok::<IjvmInstruction, Seq<char>>(i),
                Err(m) => ijvm_parse(s@) == Err::<IjvmInstruction, Seq<char>>(m@),
            },
    {
        IjvmInstruction::parse(s)
    }
}

/// The ALU word that passes `A` through.
pub const PASS_A: u8 = 0b0011_1000;

/// The ALU word that passes `B` through.
pub const PASS_B: u8 = 0b0011_0100;

/// The ALU word for `A + 1`.
pub const A_PLUS_1: u8 = 0b0011_1001;

/// The ALU word for `B + 1`.
pub const B_PLUS_1: u8 = 0b0011_0101;

/// The C-bus mask with the bits `bits` set.
pub open spec fn mask_of(bits: Seq<u8>) -> u16
    decreases bits.len(),
{
    if bits.len() == 0 {
        0
    } else {
        mask_of(bits.drop_last()) | (1u16 << (bits.last() as u16))
    }
}

/// A micro-instruction from its parts.
pub open spec fn micro_spec(alu: u8, c_sel: u16, memory: MemoryOperation, b_sel: BBus) -> MicroInstruction {
    MicroInstruction { memory, alu: alu::from_byte(alu), c_sel, b_sel }
}

/// The fetch of a `BIPUSH` byte: the byte rides as the ALU word, nothing is
/// written, and the memory operation is `11`.
pub open spec fn fetch_spec(byte: u8) -> MicroInstruction {
    MicroInstruction {
        alu: alu::from_byte(byte),
        c_sel: 0,
        b_sel: BBus::Mdr,
        memory: MemoryOperation::ReadWrite,
    }
}

/// The micro-program of an IJVM instruction.
///
/// * `BIPUSH b`: `SP = MAR = SP + 1`; the fetch of `b`; `MDR = TOS = H`, write.
/// * `DUP`: `SP = MAR = SP + 1`; `MDR = TOS`, write.
/// * `ILOAD x`: `H = LV`; `x` times `H = H + 1`; `MAR = H`, read;
///   `MAR = SP = SP + 1`, write; `TOS = MDR`.
pub open spec fn translate_spec(instr: IjvmInstruction) -> Seq<MicroInstruction> {
    match instr {
        IjvmInstruction::Bipush(byte) => seq![
            micro_spec(B_PLUS_1, mask_of(seq![3u8, 0u8]), MemoryOperation::Idle, BBus::Sp),
            fetch_spec(byte),
            micro_spec(PASS_A, mask_of(seq![6u8, 1u8]), MemoryOperation::Write, BBus::Mdr),
        ],
        IjvmInstruction::Dup => seq![
            micro_spec(B_PLUS_1, mask_of(seq![3u8, 0u8]), MemoryOperation::Idle, BBus::Sp),
            micro_spec(PASS_B, mask_of(seq![1u8]), MemoryOperation::Write, BBus::Tos),
        ],
        IjvmInstruction::ILoad(x) => seq![
            micro_spec(PASS_B, mask_of(seq![8u8]), MemoryOperation::Idle, BBus::Lv),
        ] + Seq::new(
            x as nat,
            |i: int| micro_spec(A_PLUS_1, mask_of(seq![8u8]), MemoryOperation::Idle, BBus::Mdr),
        ) + seq![
            micro_spec(PASS_A, mask_of(seq![0u8]), MemoryOperation::Read, BBus::Mdr),
            micro_spec(B_PLUS_1, mask_of(seq![3u8, 0u8]), MemoryOperation::Write, BBus::Sp),
            micro_spec(PASS_B, mask_of(seq![6u8]), MemoryOperation::Idle, BBus::Mdr),
        ],
    }
}

fn micro(alu: u8, c_sel: u16, memory: MemoryOperation, b_sel: BBus) -> (r: MicroInstruction)
    ensures
        r == micro_spec(alu, c_sel, memory, b_sel),
{
    MicroInstruction { memory, alu: AluInstruction::from(alu), c_sel, b_sel }
}

fn fetch(byte: u8) -> (r: MicroInstruction)
    ensures
        r == fetch_spec(byte),
{
    MicroInstruction {
        alu: AluInstruction::from(byte),
        c_sel: 0,
        b_sel: BBus::Mdr,
        memory: MemoryOperation::ReadWrite,
    }
}

fn mask(bits: &[u8]) -> (r: u16)
    requires
        forall|k: int| 0 <= k < bits@.len() ==> bits@[k] < 16,
    ensures
        r == mask_of(bits@),
{
    let mut m: u16 = 0;
    let mut i: usize = 0;
    while i < bits.len()
        invariant
            i <= bits@.len(),
            forall|k: int| 0 <= k < bits@.len() ==> bits@[k] < 16,
            m == mask_of(bits@.take(i as int)),
        decreases bits.len() - i,
    {
        let bit = bits[i];
        assert(bits@.take(i + 1).drop_last() =~= bits@.take(i as int));
        m = m | (1 << bit);
        i = i + 1;
    }
    assert(bits@.take(bits@.len() as int) =~= bits@);
    m
}

fn mask1(a: u8) -> (r: u16)
    requires
        a < 16,
    ensures
        r == mask_of(seq![a]),
{
    let bits: [u8; 1] = [a];
    assert(bits@ =~= seq![a]);
    mask(&bits)
}

fn mask2(a: u8, b: u8) -> (r: u16)
    requires
        a < 16,
        b < 16,
    ensures
        r == mask_of(seq![a, b]),
{
    let bits: [u8; 2] = [a, b];
    assert(bits@ =~= seq![a, b]);
    mask(&bits)
}

/// Translates an IJVM instruction into its micro-program.
fn translate(instr: IjvmInstruction) -> (r: Vec<MicroInstruction>)
    ensures
        r@ == translate_spec(instr),
{
    match instr {
        IjvmInstruction::Bipush(byte) => {
            let m0 = micro(B_PLUS_1, mask2(3, 0), MemoryOperation::Idle, BBus::Sp);
            let m1 = fetch(byte);
            let m2 = micro(PASS_A, mask2(6, 1), MemoryOperation::Write, BBus::Mdr);
            let r = vec![m0, m1, m2];
            assert(r@ =~= translate_spec(instr));
            r
        },
        IjvmInstruction::Dup => {
            let m0 = micro(B_PLUS_1, mask2(3, 0), MemoryOperation::Idle, BBus::Sp);
            let m1 = micro(PASS_B, mask1(1), MemoryOperation::Write, BBus::Tos);
            let r = vec![m0, m1];
            assert(r@ =~= translate_spec(instr));
            r
        },
        IjvmInstruction::ILoad(x) => {
            let mut out: Vec<MicroInstruction> = Vec::new();
            out.push(micro(PASS_B, mask1(8), MemoryOperation::Idle, BBus::Lv));
            let inc = micro(A_PLUS_1, mask1(8), MemoryOperation::Idle, BBus::Mdr);
            let mut k: u8 = 0;
            while k < x
                invariant
                    k <= x,
                    inc == micro_spec(A_PLUS_1, mask_of(seq![8u8]), MemoryOperation::Idle, BBus::Mdr),
                    out@ =~= seq![
                        micro_spec(PASS_B, mask_of(seq![8u8]), MemoryOperation::Idle, BBus::Lv),
                    ] + Seq::new(k as nat, |i: int| inc),
                decreases x - k,
            {
                out.push(inc);
                k = k + 1;
            }
            out.push(micro(PASS_A, mask1(0), MemoryOperation::Read, BBus::Mdr));
            out.push(micro(B_PLUS_1, mask2(3, 0), MemoryOperation::Write, BBus::Sp));
            out.push(micro(PASS_B, mask1(6), MemoryOperation::Idle, BBus::Mdr));
            assert(out@ =~= translate_spec(instr));
            out
        },
    }
}

/// The state of an IJVM run: the registers, the memory, the number of
/// micro-instructions run so far and the text of the cycles.
pub struct RunState {
    pub regs: Registers,
    pub mem: Seq<u32>,
    pub cycle: nat,
    pub log: Seq<char>,
}

/// The state at the start of a run.
pub open spec fn initial_run_state(regs: Registers, mem: Seq<u32>) -> RunState {
    RunState { regs, mem, cycle: 0, log: Seq::empty() }
}

/// The B-bus name logged for a micro-instruction (`(none)` for the fetch).
pub open spec fn logged_b_name(m: MicroInstruction) -> Seq<char> {
    if m.memory == MemoryOperation::ReadWrite {
        "(none)"@
    } else {
        register::b_bus_source_name(memory::bbus_selector(m.b_sel))
    }
}

/// The C-bus names logged for a micro-instruction (none for the fetch).
pub open spec fn logged_c_names(m: MicroInstruction) -> Seq<Seq<char>> {
    if m.memory == MemoryOperation::ReadWrite {
        Seq::empty()
    } else {
        microinstruction::c_names(m.c_sel)
    }
}

/// One micro-instruction of a run: execute it and log the cycle.
pub open spec fn micro_run_step(m: MicroInstruction, s: RunState) -> RunState {
    let after = microinstruction::micro_registers(m, s.regs, s.mem);
    RunState {
        regs: after,
        mem: microinstruction::micro_memory(m, s.regs, s.mem),
        cycle: s.cycle + 1,
        log: s.log + logger::ijvm_cycle_text(
            s.cycle as usize,
            m,
            logged_b_name(m),
            logged_c_names(m),
            s.regs,
            after,
        ),
    }
}

/// The state after the micro-instructions `ms[..n]`.
pub open spec fn run_micros(ms: Seq<MicroInstruction>, n: nat, s: RunState) -> RunState
    decreases n,
{
    if n == 0 {
        s
    } else {
        micro_run_step(ms[n - 1], run_micros(ms, (n - 1) as nat, s))
    }
}

/// The micro-instructions `ms[..n]` access memory inside its 16 words and
/// their cycles fit a `usize`.
pub open spec fn micros_fit(ms: Seq<MicroInstruction>, n: nat, s: RunState) -> bool
    decreases n,
{
    if n == 0 {
        true
    } else {
        let p = run_micros(ms, (n - 1) as nat, s);
        &&& micros_fit(ms, (n - 1) as nat, s)
        &&& microinstruction::micro_in_bounds(ms[n - 1], p.regs, p.mem)
        &&& p.cycle < usize::MAX
    }
}

/// One IJVM instruction of a run: its micro-program, then the memory dump.
pub open spec fn run_instruction(i: IjvmInstruction, s: RunState) -> RunState {
    let ms = translate_spec(i);
    let t = run_micros(ms, ms.len(), s);
    RunState { log: t.log + logger::memory_after_text(t.mem), ..t }
}

/// The state after the instructions `p[..n]`.
pub open spec fn run_program(p: Seq<IjvmInstruction>, n: nat, s: RunState) -> RunState
    decreases n,
{
    if n == 0 {
        s
    } else {
        run_instruction(p[n - 1], run_program(p, (n - 1) as nat, s))
    }
}

/// The run of `p[..n]` accesses memory inside its 16 words and its cycles
/// fit a `usize`.
pub open spec fn program_fits(p: Seq<IjvmInstruction>, n: nat, s: RunState) -> bool
    decreases n,
{
    if n == 0 {
        true
    } else {
        &&& program_fits(p, (n - 1) as nat, s)
        &&& micros_fit(
            translate_spec(p[n - 1]),
            translate_spec(p[n - 1]).len(),
            run_program(p, (n - 1) as nat, s),
        )
    }
}

proof fn lemma_micros_fit_prefix(ms: Seq<MicroInstruction>, m: nat, n: nat, s: RunState)
    requires
        m <= n,
        micros_fit(ms, n, s),
    ensures
        micros_fit(ms, m, s),
    decreases n - m,
{
    if m < n {
        lemma_micros_fit_prefix(ms, m, (n - 1) as nat, s);
    }
}

proof fn lemma_program_fits_prefix(p: Seq<IjvmInstruction>, m: nat, n: nat, s: RunState)
    requires
        m <= n,
        program_fits(p, n, s),
    ensures
        program_fits(p, m, s),
    decreases n - m,
{
    if m < n {
        lemma_program_fits_prefix(p, m, (n - 1) as nat, s);
    }
}

/// No micro-program reads the B-bus from `H`.
pub proof fn lemma_translate_sources(i: IjvmInstruction)
    ensures
        forall|k: int|
            0 <= k < translate_spec(i).len() ==> (#[trigger] translate_spec(i)[k]).b_sel != BBus::H,
{
    match i {
        IjvmInstruction::ILoad(x) => {
            let ms = translate_spec(i);
            assert forall|k: int| 0 <= k < ms.len() implies (#[trigger] ms[k]).b_sel != BBus::H by {
                if 1 <= k < 1 + x {
                    assert(ms[k] == micro_spec(
                        A_PLUS_1,
                        mask_of(seq![8u8]),
                        MemoryOperation::Idle,
                        BBus::Mdr,
                    ));
                }
            }
        },
        _ => {},
    }
}

/// Runs an IJVM program on the data path from `registers` and `memory`,
/// writing the log: the initial state, the start, then for each instruction
/// each micro-instruction's cycle and the memory after the instruction, and
/// at last the end with the number of cycles. Returns the final registers
/// and memory.
pub fn execute(
    program: &Vec<IjvmInstruction>,
    registers: Registers,
    memory: Memory,
    logger: &mut Logger,
) -> (r: (Registers, Memory))
    requires
        program_fits(program@, program@.len(), initial_run_state(registers, memory@)),
    ensures
        ({
            let fin = run_program(program@, program@.len(), initial_run_state(registers, memory@));
            &&& r.0 == fin.regs
            &&& r.1@ == fin.mem
            &&& final(logger)@ == old(logger)@ + logger::initial_state_text(memory@, registers)
                + logger::ijvm_start_text() + fin.log + logger::ijvm_eop_text(fin.cycle as usize)
        }),
{
    let ghost init = initial_run_state(registers, memory@);
    let mut regs = registers;
    let mut mem = memory;
    logger.log_ijvm_initial_state(&mem, &regs);
    logger.log_ijvm_start();
    let ghost base = logger@;
    let mut cycle: usize = 0;
    let mut k: usize = 0;
    while k < program.len()
        invariant
            k <= program.len(),
            init == initial_run_state(registers, memory@),
            program_fits(program@, program@.len(), init),
            base == old(logger)@ + logger::initial_state_text(memory@, registers)
                + logger::ijvm_start_text(),
            ({
                let st = run_program(program@, k as nat, init);
                &&& regs == st.regs
                &&& mem@ == st.mem
                &&& cycle == st.cycle
                &&& logger@ == base + st.log
            }),
        decreases program.len() - k,
    {
        let instr = program[k];
        let micros = translate(instr);
        let ghost s0 = run_program(program@, k as nat, init);
        proof {
            lemma_program_fits_prefix(program@, (k + 1) as nat, program@.len(), init);
            lemma_translate_sources(instr);
        }
        let mut j: usize = 0;
        while j < micros.len()
            invariant
                j <= micros.len(),
                micros@ == translate_spec(instr),
                micros_fit(micros@, micros@.len(), s0),
                forall|q: int| 0 <= q < micros@.len() ==> (#[trigger] micros@[q]).b_sel != BBus::H,
                ({
                    let st = run_micros(micros@, j as nat, s0);
                    &&& regs == st.regs
                    &&& mem@ == st.mem
                    &&& cycle == st.cycle
                    &&& logger@ == base + st.log
                }),
            decreases micros.len() - j,
        {
            let micro = micros[j];
            proof {
                lemma_micros_fit_prefix(micros@, (j + 1) as nat, micros@.len(), s0);
            }
            let ghost st = run_micros(micros@, j as nat, s0);
            let before = regs;
            let (after, new_memory) = micro.execute(&regs, &mem);
            let b_name: &str = if micro.memory == MemoryOperation::ReadWrite {
                "(none)"
            } else {
                Registers::b_bus_name(micro.b_sel.selector())
            };
            let c_names: Vec<&str> = if micro.memory == MemoryOperation::ReadWrite {
                Vec::new()
            } else {
                c_bus_names(micro.c_sel)
            };
            assert(c_names@.map_values(|n: &str| n@) =~= logged_c_names(micro));
            logger.log_ijvm_cycle(cycle, &micro, b_name, c_names.as_slice(), &before, &after);
            regs = after;
            mem = new_memory;
            cycle = cycle + 1;
            j = j + 1;
            assert(logger@ =~= base + run_micros(micros@, j as nat, s0).log);
        }
        logger.log_memory_after_instruction(&mem);
        k = k + 1;
        assert(logger@ =~= base + run_program(program@, k as nat, init).log);
    }
    logger.log_ijvm_eop(cycle);
    assert(logger@ =~= old(logger)@ + logger::initial_state_text(memory@, registers)
        + logger::ijvm_start_text() + run_program(program@, program@.len(), init).log
        + logger::ijvm_eop_text(cycle));
    (regs, mem)
}

/// The program of `ls[..n]`: lines blank once trimmed are skipped; every
/// other line is an instruction (see [`ijvm_parse`]). The first line that is
/// not fails, with its index counted from 0 and the message.
pub open spec fn ijvm_lines(ls: Seq<Seq<char>>, n: nat) -> Result<
    Seq<IjvmInstruction>,
    (nat, Seq<char>),
>
    decreases n,
{
    if n == 0 {
        Ok(Seq::empty())
    } else {
        match ijvm_lines(ls, (n - 1) as nat) {
            Err(e) => Err(e),
            Ok(p) => {
                let l = text::trim(ls[n - 1]);
                if l.len() == 0 {
                    Ok(p)
                } else {
                    match ijvm_parse(l) {
                        Ok(i) => Ok(p.push(i)),
                        Err(m) => Err(((n - 1) as nat, m)),
                    }
                }
            },
        }
    }
}

/// The IJVM program read from the text `s`.
pub open spec fn ijvm_program(s: Seq<char>) -> Result<Seq<IjvmInstruction>, (nat, Seq<char>)> {
    ijvm_lines(text::lines(s), text::lines(s).len())
}

proof fn lemma_ijvm_lines_err(ls: Seq<Seq<char>>, n: nat, m: nat)
    requires
        n <= m,
        ijvm_lines(ls, n) is Err,
    ensures
        ijvm_lines(ls, m) == ijvm_lines(ls, n),
    decreases m - n,
{
    if n < m {
        lemma_ijvm_lines_err(ls, n, (m - 1) as nat);
    }
}

impl IjvmInstruction {
    /// Reads an IJVM program: one instruction per line, blank lines skipped.
    pub fn parse_program(contents: &str) -> (r: Result<Vec<IjvmInstruction>, IjvmParseError>)
        ensures
            match r {
                Ok(p) => ijvm_program(contents@) == Ok::<Seq<IjvmInstruction>, (nat, Seq<char>)>(
                    p@,
                ),
                Err(IjvmParseError::InvalidLine { line, message }) => ijvm_program(contents@)
                    == Err::<Seq<IjvmInstruction>, (nat, Seq<char>)>((line as nat, message@)),
                Err(IjvmParseError::Io(_)) => false,
            },
    {
        let chars = text::chars_of(contents);
        let ls = text::split_lines(&chars);
        let ghost lsv = ls@.map_values(|l: Vec<char>| l@);
        let mut program: Vec<IjvmInstruction> = Vec::new();
        let mut k: usize = 0;
        while k < ls.len()
            invariant
                k <= ls.len(),
                lsv == ls@.map_values(|l: Vec<char>| l@),
                lsv == text::lines(contents@),
                ijvm_lines(lsv, k as nat) == Ok::<Seq<IjvmInstruction>, (nat, Seq<char>)>(
                    program@,
                ),
            decreases ls.len() - k,
        {
            assert(ls@[k as int]@ == lsv[k as int]);
            let line = text::trim_chars(&ls[k]);
            if line.len() > 0 {
                match IjvmInstruction::parse_chars(&line) {
                    Ok(instr) => {
                        program.push(instr);
                    },
                    Err(message) => {
                        proof {
                            lemma_ijvm_lines_err(lsv, (k + 1) as nat, lsv.len());
                        }
                        return Err(IjvmParseError::InvalidLine { line: k, message });
                    },
                }
            }
            k = k + 1;
        }
        Ok(program)
    }
}

impl IjvmParseError {
    /// The error's message.
    pub fn to_string(&self) -> (r: String)
        ensures
            match self {
                IjvmParseError::InvalidLine { line, message } => r@ == "Line "@ + text::dec_text(
                    *line as nat,
                ) + ": "@ + message@,
                IjvmParseError::Io(_) => "IO error: "@.is_prefix_of(r@),
            },
    {
        let mut out = String::new();
        match self {
            IjvmParseError::InvalidLine { line, message } => {
                text::push_str(&mut out, "Line ");
                text::push_dec(&mut out, *line as u64);
                text::push_str(&mut out, ": ");
                text::push_str(&mut out, message.as_str());
                assert(out@ =~= "Line "@ + text::dec_text(*line as nat) + ": "@ + message@);
            },
            IjvmParseError::Io(e) => {
                text::push_str(&mut out, "IO error: ");
                let t = crate::io_error::io_error_text(e);
                text::push_str(&mut out, t.as_str());
                assert(out@.subrange(0, "IO error: "@.len() as int) =~= "IO error: "@);
            },
        }
        out
    }
}

impl From<IjvmParseError> for ExecuteError {
    fn from(e: IjvmParseError) -> (r: Self)
        ensures
            r == ExecuteError::Ijvm(e),
    {
        ExecuteError::Ijvm(e)
    }
}

impl vstd::std_specs::convert::FromSpecImpl<IjvmParseError> for ExecuteError {
    open spec fn obeys_from_spec() -> bool {
        true
    }

    open spec fn from_spec(v: IjvmParseError) -> Self {
        ExecuteError::Ijvm(v)
    }
}

impl From<RegisterParseError> for ExecuteError {
    fn from(e: RegisterParseError) -> (r: Self)
        ensures
            r == ExecuteError::Registers(e),
    {
        ExecuteError::Registers(e)
    }
}

impl vstd::std_specs::convert::FromSpecImpl<RegisterParseError> for ExecuteError {
    open spec fn obeys_from_spec() -> bool {
        true
    }

    open spec fn from_spec(v: RegisterParseError) -> Self {
        ExecuteError::Registers(v)
    }
}

impl From<std::io::Error> for ExecuteError {
    fn from(e: std::io::Error) -> (r: Self)
        ensures
            r == ExecuteError::Io(e),
    {
        ExecuteError::Io(e)
    }
}

impl vstd::std_specs::convert::FromSpecImpl<std::io::Error> for ExecuteError {
    open spec fn obeys_from_spec() -> bool {
        true
    }

    open spec fn from_spec(v: std::io::Error) -> Self {
        ExecuteError::Io(v)
    }
}

/// The number of micro-instructions of `p[..n]`.
pub open spec fn micro_count(p: Seq<IjvmInstruction>, n: nat) -> nat
    decreases n,
{
    if n == 0 {
        0
    } else {
        micro_count(p, (n - 1) as nat) + translate_spec(p[n - 1]).len()
    }
}

/// `BIPUSH` takes three micro-instructions, `DUP` two and `ILOAD x` four
/// plus `x`.
pub proof fn lemma_translate_lengths(i: IjvmInstruction)
    ensures
        translate_spec(i).len() == match i {
            IjvmInstruction::Bipush(_) => 3nat,
            IjvmInstruction::Dup => 2nat,
            IjvmInstruction::ILoad(x) => x as nat + 4,
        },
{
}

/// A run counts one cycle per micro-instruction: after `p[..n]` the cycle
/// number has grown by the number of their micro-instructions.
pub proof fn lemma_run_counts_cycles(p: Seq<IjvmInstruction>, n: nat, s: RunState)
    ensures
        run_program(p, n, s).cycle == s.cycle + micro_count(p, n),
    decreases n,
{
    if n > 0 {
        lemma_run_counts_cycles(p, (n - 1) as nat, s);
        let ms = translate_spec(p[n - 1]);
        lemma_run_micros_cycles(ms, ms.len(), run_program(p, (n - 1) as nat, s));
    }
}

proof fn lemma_run_micros_cycles(ms: Seq<MicroInstruction>, n: nat, s: RunState)
    ensures
        run_micros(ms, n, s).cycle == s.cycle + n,
    decreases n,
{
    if n > 0 {
        lemma_run_micros_cycles(ms, (n - 1) as nat, s);
    }
}

/// `DUP` pushes the top of the stack: `SP` and `MAR` move up by one, `MDR`
/// takes `TOS`, and the word at the new `SP` becomes `TOS`; `TOS` and `H`
/// stay as they were.
pub proof fn lemma_dup_pushes_top(s: RunState)
    requires
        s.regs.sp < 15,
        s.mem.len() == 16,
    ensures
        ({
            let t = run_instruction(IjvmInstruction::Dup, s);
            &&& t.regs.sp == s.regs.sp + 1
            &&& t.regs.mar == s.regs.sp + 1
            &&& t.regs.mdr == s.regs.tos
            &&& t.regs.tos == s.regs.tos
            &&& t.regs.h == s.regs.h
            &&& t.mem == s.mem.update(s.regs.sp + 1, s.regs.tos)
            &&& t.cycle == s.cycle + 2
        }),
{
    reveal(microinstruction::micro_registers);
    reveal(microinstruction::micro_memory);
    reveal_with_fuel(mask_of, 3);
    assert(0u16 | (1u16 << 3u16) | (1u16 << 0u16) == 9u16) by (bit_vector);
    assert(0u16 | (1u16 << 1u16) == 2u16) by (bit_vector);
    assert(9u16 & (1u16 << 0u16) != 0 && 9u16 & (1u16 << 1u16) == 0 && 9u16 & (1u16 << 2u16) == 0
        && 9u16 & (1u16 << 3u16) != 0 && 9u16 & (1u16 << 4u16) == 0 && 9u16 & (1u16 << 5u16) == 0
        && 9u16 & (1u16 << 6u16) == 0 && 9u16 & (1u16 << 7u16) == 0 && 9u16 & (1u16 << 8u16) == 0)
        by (bit_vector);
    assert(2u16 & (1u16 << 0u16) == 0 && 2u16 & (1u16 << 1u16) != 0 && 2u16 & (1u16 << 2u16) == 0
        && 2u16 & (1u16 << 3u16) == 0 && 2u16 & (1u16 << 4u16) == 0 && 2u16 & (1u16 << 5u16) == 0
        && 2u16 & (1u16 << 6u16) == 0 && 2u16 & (1u16 << 7u16) == 0 && 2u16 & (1u16 << 8u16) == 0)
        by (bit_vector);
    let b_plus_1 = alu::from_byte(B_PLUS_1);
    let pass_b = alu::from_byte(PASS_B);
    assert(B_PLUS_1 & 0x80 == 0 && B_PLUS_1 & 0x40 == 0 && B_PLUS_1 & 0x20 != 0 && B_PLUS_1 & 0x10
        != 0 && B_PLUS_1 & 0x08 == 0 && B_PLUS_1 & 0x04 != 0 && B_PLUS_1 & 0x02 == 0 && B_PLUS_1
        & 0x01 != 0) by (bit_vector);
    assert(PASS_B & 0x80 == 0 && PASS_B & 0x40 == 0 && PASS_B & 0x20 != 0 && PASS_B & 0x10 != 0
        && PASS_B & 0x08 == 0 && PASS_B & 0x04 != 0 && PASS_B & 0x02 == 0 && PASS_B & 0x01 == 0)
        by (bit_vector);
    assert(seq![3u8, 0u8].drop_last() =~= seq![3u8]);
    assert(seq![3u8].drop_last() =~= Seq::<u8>::empty());
    assert(seq![1u8].drop_last() =~= Seq::<u8>::empty());
    assert(mask_of(seq![3u8, 0u8]) == 9);
    assert(mask_of(seq![1u8]) == 2);
    let ms = translate_spec(IjvmInstruction::Dup);
    assert(ms.len() == 2);
    let m0 = ms[0];
    assert(m0.alu == b_plus_1 && m0.c_sel == 9 && m0.b_sel == BBus::Sp && m0.memory
        == MemoryOperation::Idle);
    assert(alu::alu_spec(s.regs.h, s.regs.sp, b_plus_1).s == s.regs.sp + 1);
    let m1 = ms[1];
    assert(m1.alu == pass_b && m1.c_sel == 2 && m1.b_sel == BBus::Tos && m1.memory
        == MemoryOperation::Write);
    let s0 = run_micros(ms, 0, s);
    assert(s0 == s);
    let s1 = run_micros(ms, 1, s);
    assert(s1.regs.sp == s.regs.sp + 1);
    assert(s1.regs.mar == s.regs.sp + 1);
    assert(s1.mem == s.mem);
    let s2 = run_micros(ms, 2, s);
    assert(s2.regs.mdr == s.regs.tos);
}

/// The four ALU words of the micro-programs: `PASS_A` gives `A`, `PASS_B`
/// gives `B`, `A_PLUS_1` gives `A + 1` and `B_PLUS_1` gives `B + 1`
/// (modulo `2^32`), all without shifting.
pub proof fn lemma_micro_program_alu_words(a: u32, b: u32)
    ensures
        alu::alu_spec(a, b, alu::from_byte(PASS_A)).s == a,
        alu::alu_spec(a, b, alu::from_byte(PASS_B)).s == b,
        alu::alu_spec(a, b, alu::from_byte(A_PLUS_1)).s == (a + 1) % 0x1_0000_0000,
        alu::alu_spec(a, b, alu::from_byte(B_PLUS_1)).s == (b + 1) % 0x1_0000_0000,
{
    assert(PASS_A & 0x80 == 0 && PASS_A & 0x40 == 0 && PASS_A & 0x20 != 0 && PASS_A & 0x10 != 0
        && PASS_A & 0x08 != 0 && PASS_A & 0x04 == 0 && PASS_A & 0x02 == 0 && PASS_A & 0x01 == 0)
        by (bit_vector);
    assert(PASS_B & 0x80 == 0 && PASS_B & 0x40 == 0 && PASS_B & 0x20 != 0 && PASS_B & 0x10 != 0
        && PASS_B & 0x08 == 0 && PASS_B & 0x04 != 0 && PASS_B & 0x02 == 0 && PASS_B & 0x01 == 0)
        by (bit_vector);
    assert(A_PLUS_1 & 0x80 == 0 && A_PLUS_1 & 0x40 == 0 && A_PLUS_1 & 0x20 != 0 && A_PLUS_1 & 0x10
        != 0 && A_PLUS_1 & 0x08 != 0 && A_PLUS_1 & 0x04 == 0 && A_PLUS_1 & 0x02 == 0 && A_PLUS_1
        & 0x01 != 0) by (bit_vector);
    assert(B_PLUS_1 & 0x80 == 0 && B_PLUS_1 & 0x40 == 0 && B_PLUS_1 & 0x20 != 0 && B_PLUS_1 & 0x10
        != 0 && B_PLUS_1 & 0x08 == 0 && B_PLUS_1 & 0x04 != 0 && B_PLUS_1 & 0x02 == 0 && B_PLUS_1
        & 0x01 != 0) by (bit_vector);
}

proof fn lemma_mask_facts()
    ensures
        mask_of(seq![8u8]) == 256,
        mask_of(seq![0u8]) == 1,
        mask_of(seq![6u8]) == 64,
        mask_of(seq![3u8, 0u8]) == 9,
        256u16 & (1u16 << 8u16) != 0 && 256u16 & (1u16 << 0u16) == 0 && 256u16 & (1u16 << 1u16)
            == 0 && 256u16 & (1u16 << 2u16) == 0 && 256u16 & (1u16 << 3u16) == 0 && 256u16 & (1u16
            << 4u16) == 0 && 256u16 & (1u16 << 5u16) == 0 && 256u16 & (1u16 << 6u16) == 0 && 256u16
            & (1u16 << 7u16) == 0,
        1u16 & (1u16 << 0u16) != 0 && 1u16 & (1u16 << 1u16) == 0 && 1u16 & (1u16 << 2u16) == 0
            && 1u16 & (1u16 << 3u16) == 0 && 1u16 & (1u16 << 4u16) == 0 && 1u16 & (1u16 << 5u16)
            == 0 && 1u16 & (1u16 << 6u16) == 0 && 1u16 & (1u16 << 7u16) == 0 && 1u16 & (1u16
            << 8u16) == 0,
        64u16 & (1u16 << 6u16) != 0 && 64u16 & (1u16 << 0u16) == 0 && 64u16 & (1u16 << 1u16) == 0
            && 64u16 & (1u16 << 2u16) == 0 && 64u16 & (1u16 << 3u16) == 0 && 64u16 & (1u16 << 4u16)
            == 0 && 64u16 & (1u16 << 5u16) == 0 && 64u16 & (1u16 << 7u16) == 0 && 64u16 & (1u16
            << 8u16) == 0,
        9u16 & (1u16 << 0u16) != 0 && 9u16 & (1u16 << 3u16) != 0 && 9u16 & (1u16 << 1u16) == 0
            && 9u16 & (1u16 << 2u16) == 0 && 9u16 & (1u16 << 4u16) == 0 && 9u16 & (1u16 << 5u16)
            == 0 && 9u16 & (1u16 << 6u16) == 0 && 9u16 & (1u16 << 7u16) == 0 && 9u16 & (1u16
            << 8u16) == 0,
{
    reveal_with_fuel(mask_of, 3);
    assert(seq![3u8, 0u8].drop_last() =~= seq![3u8]);
    assert(seq![3u8].drop_last() =~= Seq::<u8>::empty());
    assert(seq![8u8].drop_last() =~= Seq::<u8>::empty());
    assert(seq![0u8].drop_last() =~= Seq::<u8>::empty());
    assert(seq![6u8].drop_last() =~= Seq::<u8>::empty());
    assert(0u16 | (1u16 << 3u16) | (1u16 << 0u16) == 9u16) by (bit_vector);
    assert(0u16 | (1u16 << 8u16) == 256u16) by (bit_vector);
    assert(0u16 | (1u16 << 0u16) == 1u16) by (bit_vector);
    assert(0u16 | (1u16 << 6u16) == 64u16) by (bit_vector);
    assert(256u16 & (1u16 << 8u16) != 0 && 256u16 & (1u16 << 0u16) == 0 && 256u16 & (1u16 << 1u16)
        == 0 && 256u16 & (1u16 << 2u16) == 0 && 256u16 & (1u16 << 3u16) == 0 && 256u16 & (1u16
        << 4u16) == 0 && 256u16 & (1u16 << 5u16) == 0 && 256u16 & (1u16 << 6u16) == 0 && 256u16
        & (1u16 << 7u16) == 0) by (bit_vector);
    assert(1u16 & (1u16 << 0u16) != 0 && 1u16 & (1u16 << 1u16) == 0 && 1u16 & (1u16 << 2u16) == 0
        && 1u16 & (1u16 << 3u16) == 0 && 1u16 & (1u16 << 4u16) == 0 && 1u16 & (1u16 << 5u16) == 0
        && 1u16 & (1u16 << 6u16) == 0 && 1u16 & (1u16 << 7u16) == 0 && 1u16 & (1u16 << 8u16) == 0)
        by (bit_vector);
    assert(64u16 & (1u16 << 6u16) != 0 && 64u16 & (1u16 << 0u16) == 0 && 64u16 & (1u16 << 1u16)
        == 0 && 64u16 & (1u16 << 2u16) == 0 && 64u16 & (1u16 << 3u16) == 0 && 64u16 & (1u16
        << 4u16) == 0 && 64u16 & (1u16 << 5u16) == 0 && 64u16 & (1u16 << 7u16) == 0 && 64u16
        & (1u16 << 8u16) == 0) by (bit_vector);
    assert(9u16 & (1u16 << 0u16) != 0 && 9u16 & (1u16 << 3u16) != 0 && 9u16 & (1u16 << 1u16) == 0
        && 9u16 & (1u16 << 2u16) == 0 && 9u16 & (1u16 << 4u16) == 0 && 9u16 & (1u16 << 5u16) == 0
        && 9u16 & (1u16 << 6u16) == 0 && 9u16 & (1u16 << 7u16) == 0 && 9u16 & (1u16 << 8u16) == 0)
        by (bit_vector);
}

proof fn lemma_step_h_from_lv(r: Registers, mem: Seq<u32>)
    ensures
        ({
            let m = micro_spec(PASS_B, mask_of(seq![8u8]), MemoryOperation::Idle, BBus::Lv);
            &&& microinstruction::micro_registers(m, r, mem) == Registers { h: r.lv, ..r }
            &&& microinstruction::micro_memory(m, r, mem) == mem
        }),
{
    reveal(microinstruction::micro_registers);
    reveal(microinstruction::micro_memory);
    lemma_mask_facts();
    lemma_micro_program_alu_words(r.h, r.lv);
}

proof fn lemma_step_h_plus_1(r: Registers, mem: Seq<u32>)
    ensures
        ({
            let m = micro_spec(A_PLUS_1, mask_of(seq![8u8]), MemoryOperation::Idle, BBus::Mdr);
            &&& microinstruction::micro_registers(m, r, mem) == Registers {
                h: ((r.h + 1) % 0x1_0000_0000) as u32,
                ..r
            }
            &&& microinstruction::micro_memory(m, r, mem) == mem
        }),
{
    reveal(microinstruction::micro_registers);
    reveal(microinstruction::micro_memory);
    lemma_mask_facts();
    lemma_micro_program_alu_words(r.h, r.mdr);
}

proof fn lemma_step_read(r: Registers, mem: Seq<u32>)
    ensures
        ({
            let m = micro_spec(PASS_A, mask_of(seq![0u8]), MemoryOperation::Read, BBus::Mdr);
            &&& microinstruction::micro_registers(m, r, mem) == Registers {
                mdr: mem[r.mar as int],
                mar: r.h,
                ..r
            }
            &&& microinstruction::micro_memory(m, r, mem) == mem
        }),
{
    reveal(microinstruction::micro_registers);
    reveal(microinstruction::micro_memory);
    lemma_mask_facts();
    lemma_micro_program_alu_words(r.h, r.mdr);
}

proof fn lemma_step_push_registers(r: Registers, mem: Seq<u32>)
    requires
        r.sp < 0xFFFF_FFFF,
    ensures
        microinstruction::micro_registers(
            micro_spec(B_PLUS_1, mask_of(seq![3u8, 0u8]), MemoryOperation::Write, BBus::Sp),
            r,
            mem,
        ) == (Registers { sp: (r.sp + 1) as u32, mar: (r.sp + 1) as u32, ..r }),
{
    reveal(microinstruction::micro_registers);
    lemma_mask_facts();
    lemma_micro_program_alu_words(r.h, r.sp);
}

proof fn lemma_step_push(r: Registers, mem: Seq<u32>)
    requires
        r.sp < 0xFFFF_FFFF,
    ensures
        ({
            let m = micro_spec(B_PLUS_1, mask_of(seq![3u8, 0u8]), MemoryOperation::Write, BBus::Sp);
            &&& microinstruction::micro_registers(m, r, mem) == Registers {
                sp: (r.sp + 1) as u32,
                mar: (r.sp + 1) as u32,
                ..r
            }
            &&& microinstruction::micro_memory(m, r, mem) == mem.update(r.sp + 1, r.mdr)
        }),
{
    lemma_step_push_registers(r, mem);
    reveal(microinstruction::micro_memory);
}

proof fn lemma_step_tos_from_mdr(r: Registers, mem: Seq<u32>)
    ensures
        ({
            let m = micro_spec(PASS_B, mask_of(seq![6u8]), MemoryOperation::Idle, BBus::Mdr);
            &&& microinstruction::micro_registers(m, r, mem) == Registers { tos: r.mdr, ..r }
            &&& microinstruction::micro_memory(m, r, mem) == mem
        }),
{
    reveal(microinstruction::micro_registers);
    reveal(microinstruction::micro_memory);
    lemma_mask_facts();
    lemma_micro_program_alu_words(r.h, r.mdr);
}

proof fn lemma_iload_increments(x: u8, s: RunState, k: nat)
    requires
        k <= x,
    ensures
        ({
            let t = run_micros(translate_spec(IjvmInstruction::ILoad(x)), 1 + k, s);
            &&& t.regs == Registers { h: ((s.regs.lv + k) % 0x1_0000_0000) as u32, ..s.regs }
            &&& t.mem == s.mem
            &&& t.cycle == s.cycle + 1 + k
        }),
    decreases k,
{
    let ms = translate_spec(IjvmInstruction::ILoad(x));
    if k == 0 {
        assert(ms[0] == micro_spec(PASS_B, mask_of(seq![8u8]), MemoryOperation::Idle, BBus::Lv));
        lemma_step_h_from_lv(s.regs, s.mem);
        assert(run_micros(ms, 0, s) == s);
        assert((s.regs.lv as int) % 0x1_0000_0000 == s.regs.lv);
    } else {
        lemma_iload_increments(x, s, (k - 1) as nat);
        let p = run_micros(ms, k, s);
        assert(ms[k as int] == micro_spec(A_PLUS_1, mask_of(seq![8u8]), MemoryOperation::Idle, BBus::Mdr));
        lemma_step_h_plus_1(p.regs, p.mem);
        let v = s.regs.lv + (k - 1);
        assert((v % 0x1_0000_0000 + 1) % 0x1_0000_0000 == (v + 1) % 0x1_0000_0000) by {
            vstd::arithmetic::div_mod::lemma_add_mod_noop(v, 1, 0x1_0000_0000);
        }
    }
}

/// `ILOAD x` as the micro-program runs it: `H` ends at `LV + x` (modulo
/// `2^32`); `SP` and `MAR` move one above `SP`; `MDR` and `TOS` hold the word
/// that the read took, at the `MAR` held before the instruction (the read
/// comes before the C-bus writes `MAR`); that word is stored at the new `SP`
/// and every other word stays; `PC`, `LV`, `CPP`, `OPC` and `MBR` stay; it
/// takes `x + 4` cycles.
pub proof fn lemma_iload_pushes(x: u8, s: RunState)
    requires
        s.mem.len() == 16,
        s.regs.mar < 16,
        s.regs.sp < 15,
    ensures
        ({
            let t = run_instruction(IjvmInstruction::ILoad(x), s);
            &&& t.regs.h == (s.regs.lv + x) % 0x1_0000_0000
            &&& t.regs.sp == s.regs.sp + 1
            &&& t.regs.mar == s.regs.sp + 1
            &&& t.regs.mdr == s.mem[s.regs.mar as int]
            &&& t.regs.tos == t.regs.mdr
            &&& t.mem == s.mem.update(s.regs.sp + 1, t.regs.tos)
            &&& t.regs.pc == s.regs.pc && t.regs.lv == s.regs.lv && t.regs.cpp == s.regs.cpp
                && t.regs.opc == s.regs.opc && t.regs.mbr == s.regs.mbr
            &&& t.cycle == s.cycle + x + 4
        }),
{
    let ms = translate_spec(IjvmInstruction::ILoad(x));
    assert(ms.len() == x + 4);
    lemma_iload_increments(x, s, x as nat);
    let p1 = run_micros(ms, (x + 1) as nat, s);
    assert(ms[x + 1] == micro_spec(PASS_A, mask_of(seq![0u8]), MemoryOperation::Read, BBus::Mdr));
    lemma_step_read(p1.regs, p1.mem);
    let p2 = run_micros(ms, (x + 2) as nat, s);
    assert(ms[x + 2] == micro_spec(
        B_PLUS_1,
        mask_of(seq![3u8, 0u8]),
        MemoryOperation::Write,
        BBus::Sp,
    ));
    lemma_step_push(p2.regs, p2.mem);
    let p3 = run_micros(ms, (x + 3) as nat, s);
    assert(ms[x + 3] == micro_spec(PASS_B, mask_of(seq![6u8]), MemoryOperation::Idle, BBus::Mdr));
    lemma_step_tos_from_mdr(p3.regs, p3.mem);
}

} // verus!
