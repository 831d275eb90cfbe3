//! The text of a run: what the simulator writes for each cycle.
//!
//! The logger collects the text; whoever owns the output writes it out.
use vstd::prelude::*;
use crate::alu;
use crate::cpu::ExecutionLog;
use crate::memory::Memory;
use crate::microinstruction::{self, MicroInstruction};
use crate::register::Registers;
use crate::text;

verus! {

/// Collects the text of a run.
pub struct Logger {
    out: String,
}

impl View for Logger {
    type V = Seq<char>;

    /// The text written so far.
    closed spec fn view(&self) -> Seq<char> {
        self.out@
    }
}

/// `s` followed by a line break.
pub open spec fn line(s: Seq<char>) -> Seq<char> {
    s + "\n"@
}

/// The separator line.
pub open spec fn separator() -> Seq<char> {
    line("============================================================"@)
}

/// The separator of the register and memory dumps.
pub open spec fn stars() -> Seq<char> {
    line("*******************************"@)
}

/// `v` in 32 binary digits.
pub open spec fn bin32(v: u32) -> Seq<char> {
    text::bin_text(v as nat, 32)
}

/// `1` or `0`.
pub open spec fn flag(b: bool) -> Seq<char> {
    if b {
        "1"@
    } else {
        "0"@
    }
}

/// The header of a run of the ALU exercises.
pub open spec fn start_text(a: u32, b: u32) -> Seq<char> {
    line("b = "@ + bin32(b)) + line("a = "@ + bin32(a)) + line(Seq::empty()) + line(
        "Start of Program"@,
    )
}

/// The head of a cycle: separator, cycle number, program counter and
/// instruction.
pub open spec fn cycle_head(cycle: usize, log: ExecutionLog) -> Seq<char> {
    separator() + line("Cycle "@ + text::dec_text(cycle as nat)) + line(Seq::empty()) + line(
        "PC = "@ + text::dec_text(log.pc as nat),
    ) + line("IR = "@ + alu::bits_text(log.ir))
}

/// A cycle with valid control signals: the head, then the inputs, the
/// outputs and the flags.
pub open spec fn cycle_text(cycle: usize, log: ExecutionLog) -> Seq<char> {
    cycle_head(cycle, log) + line("b = "@ + bin32(log.used_inputs.b)) + line(
        "a = "@ + bin32(log.used_inputs.a),
    ) + line("s = "@ + bin32(log.result.s)) + line("sd = "@ + bin32(log.result.sd)) + line(
        "n = "@ + flag(log.result.n),
    ) + line("z = "@ + flag(log.result.z)) + line("co = "@ + flag(log.result.carry))
}

/// The message for shift signals set together.
pub open spec fn invalid_text() -> Seq<char> {
    line("> Error, invalid control signals."@)
}

/// The end of a run of the ALU exercises.
pub open spec fn end_text(cycle: usize) -> Seq<char> {
    separator() + line("Cycle "@ + text::dec_text(cycle as nat)) + line(Seq::empty()) + line(
        "PC = "@ + text::dec_text(cycle as nat),
    ) + line("> Line is empty, EOP."@) + line(Seq::empty())
}

/// The dump of the registers, `H` first.
pub open spec fn registers_text(r: Registers) -> Seq<char> {
    line("  H   = "@ + bin32(r.h)) + line("  OPC = "@ + bin32(r.opc)) + line(
        "  TOS = "@ + bin32(r.tos),
    ) + line("  CPP = "@ + bin32(r.cpp)) + line("  LV  = "@ + bin32(r.lv)) + line(
        "  SP  = "@ + bin32(r.sp),
    ) + line("  MBR = "@ + text::bin_text(r.mbr as nat, 8)) + line("  PC  = "@ + bin32(r.pc))
        + line("  MDR = "@ + bin32(r.mdr)) + line("  MAR = "@ + bin32(r.mar))
}

/// The dump of the words `words[..n]`, one per line.
pub open spec fn words_text(words: Seq<u32>, n: nat) -> Seq<char>
    decreases n,
{
    if n == 0 {
        Seq::empty()
    } else {
        words_text(words, (n - 1) as nat) + line(bin32(words[n - 1]))
    }
}

/// The dump of the memory, one word per line.
pub open spec fn memory_text(m: Seq<u32>) -> Seq<char> {
    words_text(m, 16)
}

/// `names` joined with `", "`.
pub open spec fn join(names: Seq<Seq<char>>) -> Seq<char>
    decreases names.len(),
{
    if names.len() == 0 {
        Seq::empty()
    } else if names.len() == 1 {
        names[0]
    } else {
        join(names.drop_last()) + ", "@ + names.last()
    }
}

/// The line of the C-bus targets.
pub open spec fn c_line(c_names: Seq<Seq<char>>) -> Seq<char> {
    if c_names.len() == 0 {
        line("c = (none)"@)
    } else {
        line("c = "@ + join(c_names))
    }
}

/// The head of an IJVM cycle: the micro-instruction and the buses.
pub open spec fn ijvm_cycle_head(
    cycle: usize,
    instr: MicroInstruction,
    b_name: Seq<char>,
    c_names: Seq<Seq<char>>,
) -> Seq<char> {
    line("Cycle "@ + text::dec_text(cycle as nat)) + line(
        "ir = "@ + microinstruction::micro_text(instr),
    ) + line(Seq::empty()) + line("b = "@ + b_name) + c_line(c_names)
}

/// The registers before and after an IJVM cycle.
pub open spec fn ijvm_cycle_registers(before: Registers, after: Registers) -> Seq<char> {
    line(Seq::empty()) + line("> Registers before instruction"@) + stars() + registers_text(
        before,
    ) + line(Seq::empty()) + line("> Registers after instruction"@) + stars() + registers_text(
        after,
    )
}

/// A cycle of an IJVM run: the micro-instruction, the buses, and the
/// registers before and after.
#[verifier::opaque]
pub open spec fn ijvm_cycle_text(
    cycle: usize,
    instr: MicroInstruction,
    b_name: Seq<char>,
    c_names: Seq<Seq<char>>,
    before: Registers,
    after: Registers,
) -> Seq<char> {
    ijvm_cycle_head(cycle, instr, b_name, c_names) + ijvm_cycle_registers(before, after)
}

/// The memory after an IJVM instruction.
#[verifier::opaque]
pub open spec fn memory_after_text(m: Seq<u32>) -> Seq<char> {
    line(Seq::empty()) + line("> Memory after instruction"@) + stars() + memory_text(m)
        + separator()
}

/// The end of an IJVM run.
#[verifier::opaque]
pub open spec fn ijvm_eop_text(cycle: usize) -> Seq<char> {
    line("Cycle "@ + text::dec_text(cycle as nat)) + line("No more lines, EOP."@)
}

/// The start of an IJVM run.
#[verifier::opaque]
pub open spec fn ijvm_start_text() -> Seq<char> {
    line("Start of Program"@) + separator()
}

/// The initial state of an IJVM run.
#[verifier::opaque]
pub open spec fn initial_state_text(m: Seq<u32>, r: Registers) -> Seq<char> {
    separator() + line("Initial memory state"@) + stars() + memory_text(m) + stars() + line(
        "Initial register state"@,
    ) + stars() + registers_text(r) + separator()
}

pub(crate) fn push_line(out: &mut String, s: &str)
    ensures
        final(out)@ == old(out)@ + line(s@),
{
    text::push_str(out, s);
    text::push_str(out, "\n");
    assert(final(out)@ =~= old(out)@ + line(s@));
}

pub(crate) fn push_bin_line(out: &mut String, label: &str, v: u32)
    ensures
        final(out)@ == old(out)@ + line(label@ + bin32(v)),
{
    text::push_str(out, label);
    text::push_bin(out, v as u64, 32);
    text::push_str(out, "\n");
    assert(final(out)@ =~= old(out)@ + line(label@ + bin32(v)));
}

pub(crate) fn push_dec_line(out: &mut String, label: &str, n: usize)
    ensures
        final(out)@ == old(out)@ + line(label@ + text::dec_text(n as nat)),
{
    text::push_str(out, label);
    text::push_dec(out, n as u64);
    text::push_str(out, "\n");
    assert(final(out)@ =~= old(out)@ + line(label@ + text::dec_text(n as nat)));
}

pub(crate) fn push_flag_line(out: &mut String, label: &str, b: bool)
    ensures
        final(out)@ == old(out)@ + line(label@ + flag(b)),
{
    text::push_str(out, label);
    text::push_str(out, if b { "1" } else { "0" });
    text::push_str(out, "\n");
    assert(final(out)@ =~= old(out)@ + line(label@ + flag(b)));
}

pub(crate) fn push_empty_line(out: &mut String)
    ensures
        final(out)@ == old(out)@ + line(Seq::empty()),
{
    text::push_str(out, "\n");
    assert(final(out)@ =~= old(out)@ + line(Seq::empty()));
}

pub(crate) fn push_separator(out: &mut String)
    ensures
        final(out)@ == old(out)@ + separator(),
{
    push_line(out, "============================================================");
}

fn push_stars(out: &mut String)
    ensures
        final(out)@ == old(out)@ + stars(),
{
    push_line(out, "*******************************");
}

impl Logger {
    /// An empty log.
    pub fn new() -> (r: Self)
        ensures
            r@ == Seq::<char>::empty(),
    {
        Self { out: String::new() }
    }

    /// The text written so far.
    pub fn contents(&self) -> (r: &str)
        ensures
            r@ == self@,
    {
        self.out.as_str()
    }

    /// Writes the header of the program: the inputs, then `Start of Program`.
    pub fn start_program(&mut self, a: u32, b: u32)
        ensures
            final(self)@ == old(self)@ + start_text(a, b),
    {
        push_bin_line(&mut self.out, "b = ", b);
        push_bin_line(&mut self.out, "a = ", a);
        push_empty_line(&mut self.out);
        push_line(&mut self.out, "Start of Program");
        assert(self.out@ =~= old(self)@ + start_text(a, b));
    }

    fn log_cycle_head(&mut self, cycle: usize, log: &ExecutionLog)
        ensures
            final(self)@ == old(self)@ + cycle_head(cycle, *log),
    {
        push_separator(&mut self.out);
        push_dec_line(&mut self.out, "Cycle ", cycle);
        push_empty_line(&mut self.out);
        push_dec_line(&mut self.out, "PC = ", log.pc);
        text::push_str(&mut self.out, "IR = ");
        let ir = log.ir.to_string();
        text::push_str(&mut self.out, ir.as_str());
        text::push_str(&mut self.out, "\n");
        assert(self.out@ =~= old(self)@ + cycle_head(cycle, *log));
    }

    /// Writes one cycle: the head, the inputs, the outputs and the flags.
    pub fn log_cycle(&mut self, cycle: usize, log: &ExecutionLog)
        ensures
            final(self)@ == old(self)@ + cycle_text(cycle, *log),
    {
        self.log_cycle_head(cycle, log);
        push_bin_line(&mut self.out, "b = ", log.used_inputs.b);
        push_bin_line(&mut self.out, "a = ", log.used_inputs.a);
        push_bin_line(&mut self.out, "s = ", log.result.s);
        push_bin_line(&mut self.out, "sd = ", log.result.sd);
        push_flag_line(&mut self.out, "n = ", log.result.n);
        push_flag_line(&mut self.out, "z = ", log.result.z);
        push_flag_line(&mut self.out, "co = ", log.result.carry);
        assert(self.out@ =~= old(self)@ + cycle_text(cycle, *log));
    }

    /// Writes a cycle whose `SLL8` and `SRA1` are both set: the head up to
    /// `IR`, then the error.
    pub fn log_cycle_invalid_signals(&mut self, cycle: usize, log: &ExecutionLog)
        ensures
            final(self)@ == old(self)@ + cycle_head(cycle, *log) + invalid_text(),
    {
        self.log_cycle_head(cycle, log);
        self.log_invalid();
    }

    /// Writes the error for shift signals set together.
    pub fn log_invalid(&mut self)
        ensures
            final(self)@ == old(self)@ + invalid_text(),
    {
        push_line(&mut self.out, "> Error, invalid control signals.");
    }

    fn write_registers(&mut self, regs: &Registers)
        ensures
            final(self)@ == old(self)@ + registers_text(*regs),
    {
        push_bin_line(&mut self.out, "  H   = ", regs.h);
        push_bin_line(&mut self.out, "  OPC = ", regs.opc);
        push_bin_line(&mut self.out, "  TOS = ", regs.tos);
        push_bin_line(&mut self.out, "  CPP = ", regs.cpp);
        push_bin_line(&mut self.out, "  LV  = ", regs.lv);
        push_bin_line(&mut self.out, "  SP  = ", regs.sp);
        text::push_str(&mut self.out, "  MBR = ");
        text::push_bin(&mut self.out, regs.mbr as u64, 8);
        text::push_str(&mut self.out, "\n");
        push_bin_line(&mut self.out, "  PC  = ", regs.pc);
        push_bin_line(&mut self.out, "  MDR = ", regs.mdr);
        push_bin_line(&mut self.out, "  MAR = ", regs.mar);
        assert(self.out@ =~= old(self)@ + registers_text(*regs));
    }

    /// Writes the end of the program.
    pub fn end_program(&mut self, cycle: usize)
        ensures
            final(self)@ == old(self)@ + end_text(cycle),
    {
        push_separator(&mut self.out);
        push_dec_line(&mut self.out, "Cycle ", cycle);
        push_empty_line(&mut self.out);
        push_dec_line(&mut self.out, "PC = ", cycle);
        push_line(&mut self.out, "> Line is empty, EOP.");
        push_empty_line(&mut self.out);
        assert(self.out@ =~= old(self)@ + end_text(cycle));
    }
}

fn push_join(out: &mut String, names: &[&str])
    ensures
        final(out)@ == old(out)@ + join(names@.map_values(|n: &str| n@)),
{
    let ghost all = names@.map_values(|n: &str| n@);
    let mut i: usize = 0;
    while i < names.len()
        invariant
            i <= names.len(),
            all == names@.map_values(|n: &str| n@),
            out@ == old(out)@ + join(all.take(i as int)),
        decreases names.len() - i,
    {
        let ghost before = out@;
        if i > 0 {
            text::push_str(out, ", ");
        }
        text::push_str(out, names[i]);
        proof {
            let pre = all.take(i as int);
            let next = all.take(i + 1);
            assert(next.drop_last() =~= pre);
            assert(next.last() == names@[i as int]@);
            if i == 0 {
                assert(pre =~= Seq::<Seq<char>>::empty());
                assert(out@ =~= old(out)@ + join(next));
            } else {
                assert(out@ =~= old(out)@ + join(next));
            }
        }
        i = i + 1;
    }
    assert(all.take(names.len() as int) =~= all);
}

impl Logger {
    /// Writes one IJVM cycle: the micro-instruction, the B-bus source, the
    /// C-bus targets (`(none)` when there are none) and the registers before
    /// and after.
    pub fn log_ijvm_cycle(
        &mut self,
        cycle: usize,
        instr: &MicroInstruction,
        b_name: &str,
        c_names: &[&str],
        before: &Registers,
        after: &Registers,
    )
        ensures
            final(self)@ == old(self)@ + ijvm_cycle_text(
                cycle,
                *instr,
                b_name@,
                c_names@.map_values(|n: &str| n@),
                *before,
                *after,
            ),
    {
        self.log_ijvm_cycle_head(cycle, instr, b_name, c_names);
        self.log_ijvm_cycle_registers(before, after);
        proof {
            reveal(ijvm_cycle_text);
        }
    }

    fn log_ijvm_cycle_head(
        &mut self,
        cycle: usize,
        instr: &MicroInstruction,
        b_name: &str,
        c_names: &[&str],
    )
        ensures
            final(self)@ == old(self)@ + ijvm_cycle_head(
                cycle,
                *instr,
                b_name@,
                c_names@.map_values(|n: &str| n@),
            ),
    {
        push_dec_line(&mut self.out, "Cycle ", cycle);
        text::push_str(&mut self.out, "ir = ");
        let ir = instr.to_string();
        text::push_str(&mut self.out, ir.as_str());
        text::push_str(&mut self.out, "\n");
        push_empty_line(&mut self.out);
        text::push_str(&mut self.out, "b = ");
        text::push_str(&mut self.out, b_name);
        text::push_str(&mut self.out, "\n");
        let ghost mid = self.out@;
        if c_names.len() == 0 {
            push_line(&mut self.out, "c = (none)");
        } else {
            text::push_str(&mut self.out, "c = ");
            push_join(&mut self.out, c_names);
            text::push_str(&mut self.out, "\n");
        }
        assert(self.out@ =~= mid + c_line(c_names@.map_values(|n: &str| n@)));
        assert(self.out@ =~= old(self)@ + ijvm_cycle_head(
            cycle,
            *instr,
            b_name@,
            c_names@.map_values(|n: &str| n@),
        ));
    }

    fn log_ijvm_cycle_registers(&mut self, before: &Registers, after: &Registers)
        ensures
            final(self)@ == old(self)@ + ijvm_cycle_registers(*before, *after),
    {
        push_empty_line(&mut self.out);
        push_line(&mut self.out, "> Registers before instruction");
        push_stars(&mut self.out);
        self.write_registers(before);
        push_empty_line(&mut self.out);
        push_line(&mut self.out, "> Registers after instruction");
        push_stars(&mut self.out);
        self.write_registers(after);
        assert(self.out@ =~= old(self)@ + ijvm_cycle_registers(*before, *after));
    }

    /// Writes the memory after an instruction, then the separator.
    pub fn log_memory_after_instruction(&mut self, mem: &Memory)
        ensures
            final(self)@ == old(self)@ + memory_after_text(mem@),
    {
        push_empty_line(&mut self.out);
        push_line(&mut self.out, "> Memory after instruction");
        push_stars(&mut self.out);
        self.write_memory(mem);
        push_separator(&mut self.out);
        reveal(memory_after_text);
        assert(self.out@ =~= old(self)@ + memory_after_text(mem@));
    }

    /// Writes the end of an IJVM run.
    pub fn log_ijvm_eop(&mut self, cycle: usize)
        ensures
            final(self)@ == old(self)@ + ijvm_eop_text(cycle),
    {
        push_dec_line(&mut self.out, "Cycle ", cycle);
        push_line(&mut self.out, "No more lines, EOP.");
        reveal(ijvm_eop_text);
        assert(self.out@ =~= old(self)@ + ijvm_eop_text(cycle));
    }

    /// Writes the start of an IJVM run.
    pub fn log_ijvm_start(&mut self)
        ensures
            final(self)@ == old(self)@ + ijvm_start_text(),
    {
        push_line(&mut self.out, "Start of Program");
        push_separator(&mut self.out);
        reveal(ijvm_start_text);
        assert(self.out@ =~= old(self)@ + ijvm_start_text());
    }

    /// Writes the initial memory and registers of an IJVM run.
    pub fn log_ijvm_initial_state(&mut self, mem: &Memory, regs: &Registers)
        ensures
            final(self)@ == old(self)@ + initial_state_text(mem@, *regs),
    {
        push_separator(&mut self.out);
        push_line(&mut self.out, "Initial memory state");
        push_stars(&mut self.out);
        self.write_memory(mem);
        push_stars(&mut self.out);
        push_line(&mut self.out, "Initial register state");
        push_stars(&mut self.out);
        self.write_registers(regs);
        push_separator(&mut self.out);
        reveal(initial_state_text);
        assert(self.out@ =~= old(self)@ + initial_state_text(mem@, *regs));
    }

    /// Writes the memory, one word of 32 binary digits per line.
    pub fn write_memory(&mut self, mem: &Memory)
        ensures
            final(self)@ == old(self)@ + memory_text(mem@),
    {
        let mut i: usize = 0;
        while i < 16
            invariant
                i <= 16,
                self.out@ == old(self)@ + words_text(mem@, i as nat),
            decreases 16 - i,
        {
            push_bin_line(&mut self.out, "", mem.0[i]);
            proof {
                reveal_strlit("");
                assert(""@ + bin32(mem@[i as int]) =~= bin32(mem@[i as int]));
            }
            i = i + 1;
            assert(self.out@ =~= old(self)@ + words_text(mem@, i as nat));
        }
    }
}

/// The text `t` holds, from `start`, the label `label`, the digits `digits`
/// and a line break.
pub open spec fn dump_line_at(t: Seq<char>, start: int, label: Seq<char>, digits: Seq<char>) -> bool {
    &&& t.subrange(start, start + label.len()) == label
    &&& t.subrange(start + label.len(), start + label.len() + digits.len()) == digits
    &&& t[start + label.len() + digits.len()] == '\n'
}

/// The register dump has a fixed layout: ten lines, each an eight-character
/// label naming a register followed by that register's value in binary (32
/// digits, 8 for `MBR`), so each register's digits stand at a fixed place
/// and depend on that register alone.
pub proof fn lemma_register_dump_layout(r: Registers)
    ensures
        registers_text(r).len() == 386,
        dump_line_at(registers_text(r), 0, "  H   = "@, bin32(r.h)),
        dump_line_at(registers_text(r), 41, "  OPC = "@, bin32(r.opc)),
        dump_line_at(registers_text(r), 82, "  TOS = "@, bin32(r.tos)),
        dump_line_at(registers_text(r), 123, "  CPP = "@, bin32(r.cpp)),
        dump_line_at(registers_text(r), 164, "  LV  = "@, bin32(r.lv)),
        dump_line_at(registers_text(r), 205, "  SP  = "@, bin32(r.sp)),
        dump_line_at(registers_text(r), 246, "  MBR = "@, text::bin_text(r.mbr as nat, 8)),
        dump_line_at(registers_text(r), 263, "  PC  = "@, bin32(r.pc)),
        dump_line_at(registers_text(r), 304, "  MDR = "@, bin32(r.mdr)),
        dump_line_at(registers_text(r), 345, "  MAR = "@, bin32(r.mar)),
{
    reveal_strlit("  H   = ");
    reveal_strlit("  OPC = ");
    reveal_strlit("  TOS = ");
    reveal_strlit("  CPP = ");
    reveal_strlit("  LV  = ");
    reveal_strlit("  SP  = ");
    reveal_strlit("  MBR = ");
    reveal_strlit("  PC  = ");
    reveal_strlit("  MDR = ");
    reveal_strlit("  MAR = ");
    vstd::arithmetic::power2::lemma2_to64();
    text::lemma_bin_text_len(r.h as nat, 32);
    text::lemma_bin_text_len(r.opc as nat, 32);
    text::lemma_bin_text_len(r.tos as nat, 32);
    text::lemma_bin_text_len(r.cpp as nat, 32);
    text::lemma_bin_text_len(r.lv as nat, 32);
    text::lemma_bin_text_len(r.sp as nat, 32);
    text::lemma_bin_text_len(r.mbr as nat, 8);
    text::lemma_bin_text_len(r.pc as nat, 32);
    text::lemma_bin_text_len(r.mdr as nat, 32);
    text::lemma_bin_text_len(r.mar as nat, 32);
    reveal_strlit("\n");
    let t = registers_text(r);
    assert(t.subrange(0, 41) =~= line("  H   = "@ + bin32(r.h)));
    assert(t.subrange(0, 8) =~= "  H   = "@) by {
        let l = t.subrange(0, 41);
        assert(t.subrange(0, 8) =~= l.subrange(0, 8));
    }
    assert(t.subrange(8, 40) =~= bin32(r.h)) by {
        let l = t.subrange(0, 41);
        assert(t.subrange(8, 40) =~= l.subrange(8, 40));
    }
    assert(t[40] == t.subrange(0, 41)[40]);
    assert(t.subrange(41, 82) =~= line("  OPC = "@ + bin32(r.opc)));
    assert(t.subrange(41, 49) =~= "  OPC = "@) by {
        let l = t.subrange(41, 82);
        assert(t.subrange(41, 49) =~= l.subrange(0, 8));
    }
    assert(t.subrange(49, 81) =~= bin32(r.opc)) by {
        let l = t.subrange(41, 82);
        assert(t.subrange(49, 81) =~= l.subrange(8, 40));
    }
    assert(t[81] == t.subrange(41, 82)[40]);
    assert(t.subrange(82, 123) =~= line("  TOS = "@ + bin32(r.tos)));
    assert(t.subrange(82, 90) =~= "  TOS = "@) by {
        let l = t.subrange(82, 123);
        assert(t.subrange(82, 90) =~= l.subrange(0, 8));
    }
    assert(t.subrange(90, 122) =~= bin32(r.tos)) by {
        let l = t.subrange(82, 123);
        assert(t.subrange(90, 122) =~= l.subrange(8, 40));
    }
    assert(t[122] == t.subrange(82, 123)[40]);
    assert(t.subrange(123, 164) =~= line("  CPP = "@ + bin32(r.cpp)));
    assert(t.subrange(123, 131) =~= "  CPP = "@) by {
        let l = t.subrange(123, 164);
        assert(t.subrange(123, 131) =~= l.subrange(0, 8));
    }
    assert(t.subrange(131, 163) =~= bin32(r.cpp)) by {
        let l = t.subrange(123, 164);
        assert(t.subrange(131, 163) =~= l.subrange(8, 40));
    }
    assert(t[163] == t.subrange(123, 164)[40]);
    assert(t.subrange(164, 205) =~= line("  LV  = "@ + bin32(r.lv)));
    assert(t.subrange(164, 172) =~= "  LV  = "@) by {
        let l = t.subrange(164, 205);
        assert(t.subrange(164, 172) =~= l.subrange(0, 8));
    }
    assert(t.subrange(172, 204) =~= bin32(r.lv)) by {
        let l = t.subrange(164, 205);
        assert(t.subrange(172, 204) =~= l.subrange(8, 40));
    }
    assert(t[204] == t.subrange(164, 205)[40]);
    assert(t.subrange(205, 246) =~= line("  SP  = "@ + bin32(r.sp)));
    assert(t.subrange(205, 213) =~= "  SP  = "@) by {
        let l = t.subrange(205, 246);
        assert(t.subrange(205, 213) =~= l.subrange(0, 8));
    }
    assert(t.subrange(213, 245) =~= bin32(r.sp)) by {
        let l = t.subrange(205, 246);
        assert(t.subrange(213, 245) =~= l.subrange(8, 40));
    }
    assert(t[245] == t.subrange(205, 246)[40]);
    assert(t.subrange(246, 263) =~= line("  MBR = "@ + text::bin_text(r.mbr as nat, 8)));
    assert(t.subrange(246, 254) =~= "  MBR = "@) by {
        let l = t.subrange(246, 263);
        assert(t.subrange(246, 254) =~= l.subrange(0, 8));
    }
    assert(t.subrange(254, 262) =~= text::bin_text(r.mbr as nat, 8)) by {
        let l = t.subrange(246, 263);
        assert(t.subrange(254, 262) =~= l.subrange(8, 16));
    }
    assert(t[262] == t.subrange(246, 263)[16]);
    assert(t.subrange(263, 304) =~= line("  PC  = "@ + bin32(r.pc)));
    assert(t.subrange(263, 271) =~= "  PC  = "@) by {
        let l = t.subrange(263, 304);
        assert(t.subrange(263, 271) =~= l.subrange(0, 8));
    }
    assert(t.subrange(271, 303) =~= bin32(r.pc)) by {
        let l = t.subrange(263, 304);
        assert(t.subrange(271, 303) =~= l.subrange(8, 40));
    }
    assert(t[303] == t.subrange(263, 304)[40]);
    assert(t.subrange(304, 345) =~= line("  MDR = "@ + bin32(r.mdr)));
    assert(t.subrange(304, 312) =~= "  MDR = "@) by {
        let l = t.subrange(304, 345);
        assert(t.subrange(304, 312) =~= l.subrange(0, 8));
    }
    assert(t.subrange(312, 344) =~= bin32(r.mdr)) by {
        let l = t.subrange(304, 345);
        assert(t.subrange(312, 344) =~= l.subrange(8, 40));
    }
    assert(t[344] == t.subrange(304, 345)[40]);
    assert(t.subrange(345, 386) =~= line("  MAR = "@ + bin32(r.mar)));
    assert(t.subrange(345, 353) =~= "  MAR = "@) by {
        let l = t.subrange(345, 386);
        assert(t.subrange(345, 353) =~= l.subrange(0, 8));
    }
    assert(t.subrange(353, 385) =~= bin32(r.mar)) by {
        let l = t.subrange(345, 386);
        assert(t.subrange(353, 385) =~= l.subrange(8, 40));
    }
    assert(t[385] == t.subrange(345, 386)[40]);
}

} // verus!
