//! The first stage of the simulator: a CPU with a program counter and an
//! instruction register around the ALU, and its log.

pub mod cpu;
pub mod logger;
