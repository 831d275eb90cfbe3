//! The program counter and the instruction register.
use vstd::prelude::*;
use crate::alu::AluInstruction;

verus! {

/// Program counter: the index of the instruction being executed.
pub struct ProgramCounter {
    value: usize,
}

/// Instruction register: the current instruction, if one was loaded.
pub struct InstructionRegister {
    instruction: Option<AluInstruction>,
}

impl View for ProgramCounter {
    type V = usize;

    closed spec fn view(&self) -> usize {
        self.value
    }
}

impl View for InstructionRegister {
    type V = Option<AluInstruction>;

    closed spec fn view(&self) -> Option<AluInstruction> {
        self.instruction
    }
}

impl ProgramCounter {
    /// A counter that starts at 0.
    pub fn new() -> (r: Self)
        ensures
            r@ == 0,
    {
        ProgramCounter { value: 0 }
    }

    /// The current value.
    pub fn get(&self) -> (r: usize)
        ensures
            r == self@,
    {
        self.value
    }

    /// Adds one to the counter.
    pub fn increment(&mut self)
        requires
            old(self)@ < usize::MAX,
        ensures
            final(self)@ == old(self)@ + 1,
    {
        self.value = self.value + 1;
    }
}

impl InstructionRegister {
    /// An empty register.
    pub fn new() -> (r: Self)
        ensures
            r@ == None::<AluInstruction>,
    {
        InstructionRegister { instruction: None }
    }

    /// The stored instruction, if any.
    pub fn get(&self) -> (r: Option<&AluInstruction>)
        ensures
            match r {
                Some(i) => self@ == Some(*i),
                None => self@ == None::<AluInstruction>,
            },
    {
        match &self.instruction {
            Some(i) => Some(i),
            None => None,
        }
    }

    /// Loads `instruction`, replacing what was there.
    pub fn load(&mut self, instruction: AluInstruction)
        ensures
            final(self)@ == Some(instruction),
    {
        self.instruction = Some(instruction);
    }
}

} // verus!
