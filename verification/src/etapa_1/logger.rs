//! The log of a first-stage run.
use vstd::prelude::*;
use crate::alu;
use crate::etapa_1::cpu::ExecutionLog;
use crate::logger::{
    self,
    push_bin_line,
    push_dec_line,
    push_empty_line,
    push_flag_line,
    push_line,
    push_separator,
};
use crate::text;

verus! {

/// Collects the text of a first-stage run.
pub struct Logger {
    out: String,
}

/// A cycle of a run (it carries nothing).
#[derive(Debug, PartialEq)]
pub struct Cycle {}

impl View for Logger {
    type V = Seq<char>;

    /// The text written so far.
    closed spec fn view(&self) -> Seq<char> {
        self.out@
    }
}

/// One cycle: separator, cycle number, program counter, instruction,
/// inputs, result and carry.
pub open spec fn cycle_text(cycle: usize, log: ExecutionLog) -> Seq<char> {
    logger::separator() + logger::line("Cycle "@ + text::dec_text(cycle as nat)) + logger::line(
        Seq::empty(),
    ) + logger::line("PC = "@ + text::dec_text(log.pc as nat)) + logger::line(
        "IR = "@ + alu::bits_text(log.ir),
    ) + logger::line("b = "@ + logger::bin32(log.used_inputs.b)) + logger::line(
        "a = "@ + logger::bin32(log.used_inputs.a),
    ) + logger::line("s = "@ + logger::bin32(log.result.s)) + logger::line(
        "co = "@ + logger::flag(log.result.carry),
    )
}

/// The end of the program; the last line has no line break.
pub open spec fn end_text(cycle: usize) -> Seq<char> {
    logger::separator() + logger::line("Cycle "@ + text::dec_text(cycle as nat)) + logger::line(
        Seq::empty(),
    ) + logger::line("PC = "@ + text::dec_text(cycle as nat)) + "> Line is empty, EOP."@
}

impl Logger {
    /// An empty log.
    pub fn new() -> (r: Self)
        ensures
            r@ == Seq::<char>::empty(),
    {
        Self { out: String::new() }
    }

    /// The text written so far.
    pub fn contents(&self) -> (r: &str)
        ensures
            r@ == self@,
    {
        self.out.as_str()
    }

    /// Writes the header of the program: the inputs, then `Start of Program`.
    pub fn start_program(&mut self, a: u32, b: u32)
        ensures
            final(self)@ == old(self)@ + logger::start_text(a, b),
    {
        push_bin_line(&mut self.out, "b = ", b);
        push_bin_line(&mut self.out, "a = ", a);
        push_empty_line(&mut self.out);
        push_line(&mut self.out, "Start of Program");
        assert(self.out@ =~= old(self)@ + logger::start_text(a, b));
    }

    /// Writes one cycle.
    pub fn log_cycle(&mut self, cycle: usize, log: &ExecutionLog)
        ensures
            final(self)@ == old(self)@ + cycle_text(cycle, *log),
    {
        push_separator(&mut self.out);
        push_dec_line(&mut self.out, "Cycle ", cycle);
        push_empty_line(&mut self.out);
        push_dec_line(&mut self.out, "PC = ", log.pc);
        text::push_str(&mut self.out, "IR = ");
        let ir = log.ir.to_string();
        text::push_str(&mut self.out, ir.as_str());
        text::push_str(&mut self.out, "\n");
        push_bin_line(&mut self.out, "b = ", log.used_inputs.b);
        push_bin_line(&mut self.out, "a = ", log.used_inputs.a);
        push_bin_line(&mut self.out, "s = ", log.result.s);
        push_flag_line(&mut self.out, "co = ", log.result.carry);
        assert(self.out@ =~= old(self)@ + cycle_text(cycle, *log));
    }

    /// Writes the end of the program.
    pub fn end_program(&mut self, cycle: usize)
        ensures
            final(self)@ == old(self)@ + end_text(cycle),
    {
        push_separator(&mut self.out);
        push_dec_line(&mut self.out, "Cycle ", cycle);
        push_empty_line(&mut self.out);
        push_dec_line(&mut self.out, "PC = ", cycle);
        text::push_str(&mut self.out, "> Line is empty, EOP.");
        assert(self.out@ =~= old(self)@ + end_text(cycle));
    }
}

} // verus!
