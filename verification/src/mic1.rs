//! The MIC-1 data path stepped one micro-instruction at a time.
use vstd::prelude::*;
use crate::alu::{self, Alu};
use crate::memory::{self, BBus};
use crate::microinstruction::{self, c_bus_names, c_bus_write, MicroInstruction};
use crate::register::{self, Registers};

verus! {

/// The data path: its registers.
pub struct Mic1 {
    pub regs: Registers,
}

/// The value that `instr` writes on the C-bus when the data path steps from
/// `regs`: the shifted output of the ALU on `h` and the B-bus.
pub open spec fn step_value(instr: MicroInstruction, regs: Registers) -> u32 {
    alu::alu_spec(
        regs.h,
        register::b_bus_value(regs, memory::bbus_selector(instr.b_sel)),
        instr.alu,
    ).sd
}

impl Mic1 {
    /// A data path with registers `regs`.
    pub fn new(regs: Registers) -> (r: Self)
        ensures
            r.regs == regs,
    {
        Self { regs }
    }

    /// Runs `instr` on the registers: the ALU takes `h` and the B-bus source,
    /// and its shifted output `sd` goes to the registers selected on the
    /// C-bus. Returns the name of the B-bus source, the names of the
    /// registers written, and the registers before and after.
    pub fn step(&mut self, instr: &MicroInstruction) -> (r: (
        &'static str,
        Vec<&'static str>,
        Registers,
        Registers,
    ))
        requires
            instr.b_sel != BBus::H,
        ensures
            r.0@ == register::b_bus_source_name(memory::bbus_selector(instr.b_sel)),
            r.1@.map_values(|s: &'static str| s@) == microinstruction::c_names(instr.c_sel),
            r.2 == old(self).regs,
            final(self).regs == microinstruction::c_bus_apply(
                old(self).regs,
                instr.c_sel,
                step_value(*instr, old(self).regs),
            ),
            r.3 == final(self).regs,
    {
        let before = self.regs;
        let sel = instr.b_sel.selector();
        let b_name = Registers::b_bus_name(sel);
        let b = self.regs.b_bus_decode(sel);
        let a = self.regs.h;
        let (_, alu_result) = Alu::execute(a, b, instr.alu);
        let c_names = c_bus_names(instr.c_sel);
        c_bus_write(&mut self.regs, instr.c_sel, alu_result.sd);
        let after = self.regs;
        (b_name, c_names, before, after)
    }
}

} // verus!
