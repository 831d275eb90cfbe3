//! A simulator of the MIC-1 microarchitecture: the ALU with its shifter,
//! the data path registers, a small word memory, the micro-instruction
//! executor and a tiny IJVM front end, with the textual logs of each run.

pub mod alu;
pub mod text;
pub mod io_error;
pub mod register;
pub mod instruction_register;
pub mod cpu;
pub mod etapa_1;
pub mod memory;
pub mod microinstruction;
pub mod mic1;
pub mod logger;
pub mod loader;
pub mod ijvm;
