//! The first-stage CPU: program counter and instruction register around the ALU.
use vstd::prelude::*;
use crate::alu::{self, Alu, AluInstruction, AluResult, Inputs};
use crate::instruction_register::{InstructionRegister, ProgramCounter};

verus! {

/// The CPU holds the state and runs the instructions one cycle at a time.
pub struct Cpu {
    pc: ProgramCounter,
    ir: InstructionRegister,
}

/// What one executed program line leaves for the log.
pub struct ExecutionLog {
    /// the control word of the line
    pub ir: AluInstruction,
    /// the program counter of the line
    pub pc: usize,
    /// the ALU output
    pub result: AluResult,
    pub used_inputs: Inputs,
}

impl Cpu {
    /// The program counter.
    pub closed spec fn pc_value(&self) -> usize {
        self.pc@
    }

    /// The content of the instruction register.
    pub closed spec fn ir_value(&self) -> Option<AluInstruction> {
        self.ir@
    }
}

impl ExecutionLog {
    /// Creates a log from its parts.
    pub fn new(ir: AluInstruction, pc: usize, a: u32, b: u32, result: AluResult) -> (r: Self)
        ensures
            r.ir == ir,
            r.pc == pc,
            r.used_inputs.a == a,
            r.used_inputs.b == b,
            r.result == result,
    {
        Self { ir, pc, result, used_inputs: Inputs { a, b } }
    }
}

impl Cpu {
    /// A CPU with the counter at 0 and an empty instruction register.
    pub fn new() -> (r: Self)
        ensures
            r.pc_value() == 0,
            r.ir_value() == None::<AluInstruction>,
    {
        Cpu { pc: ProgramCounter::new(), ir: InstructionRegister::new() }
    }

    /// Executes one instruction cycle: loads the instruction into the
    /// register, logs the counter before the cycle and moves it on by one.
    pub fn execute_cycle(&mut self, a: u32, b: u32, instruction: AluInstruction) -> (r:
        ExecutionLog)
        requires
            old(self).pc_value() < usize::MAX,
        ensures
            final(self).pc_value() == old(self).pc_value() + 1,
            final(self).ir_value() == Some(instruction),
            r.pc == old(self).pc_value(),
            r.ir == instruction,
            r.used_inputs.a == alu::operand_a(a, instruction),
            r.used_inputs.b == alu::operand_b(b, instruction),
            r.result == alu::alu_spec(a, b, instruction),
    {
        self.ir.load(instruction);
        let pc = self.pc.get();
        let (used_inputs, result) = Alu::execute(a, b, instruction);
        self.pc.increment();
        ExecutionLog { ir: instruction, pc, result, used_inputs }
    }
}

} // verus!
