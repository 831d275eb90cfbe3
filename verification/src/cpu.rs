//! The CPU of the ALU exercises: a program counter around the ALU.
use vstd::prelude::*;
use crate::alu::{self, Alu, AluInstruction, AluResult, Inputs};

verus! {

/// The CPU holds the state and runs the instructions one cycle at a time.
pub struct Cpu {
    pc: usize,
}

/// What one executed program line leaves for the log.
pub struct ExecutionLog {
    /// the control word of the line
    pub ir: AluInstruction,
    /// the program counter of the line
    pub pc: usize,
    /// the ALU output
    pub result: AluResult,
    pub used_inputs: Inputs,
}

impl View for Cpu {
    type V = usize;

    /// The program counter.
    closed spec fn view(&self) -> usize {
        self.pc
    }
}

impl ExecutionLog {
    /// Creates a log from its parts.
    pub fn new(ir: AluInstruction, pc: usize, a: u32, b: u32, result: AluResult) -> (r: Self)
        ensures
            r.ir == ir,
            r.pc == pc,
            r.used_inputs.a == a,
            r.used_inputs.b == b,
            r.result == result,
    {
        Self { ir, pc, result, used_inputs: Inputs { a, b } }
    }
}

impl Cpu {
    /// A CPU whose program counter starts at 1.
    pub fn new() -> (r: Self)
        ensures
            r@ == 1,
    {
        Cpu { pc: 1 }
    }

    /// Executes one instruction cycle: the log carries the program counter
    /// before the cycle, which then moves on by one.
    pub fn execute_cycle(&mut self, a: u32, b: u32, instruction: AluInstruction) -> (r:
        ExecutionLog)
        requires
            old(self)@ < usize::MAX,
        ensures
            final(self)@ == old(self)@ + 1,
            r.pc == old(self)@,
            r.ir == instruction,
            r.used_inputs.a == alu::operand_a(a, instruction),
            r.used_inputs.b == alu::operand_b(b, instruction),
            r.result == alu::alu_spec(a, b, instruction),
    {
        let pc = self.pc;
        self.pc = self.pc + 1;
        let (used_inputs, result) = Alu::execute(a, b, instruction);
        ExecutionLog { ir: instruction, pc, result, used_inputs }
    }
}

} // verus!
