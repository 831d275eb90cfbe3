//! The MIC-1 data path registers and the B-bus selector decoding.
use vstd::prelude::*;

verus! {

/// The data path registers.
///
/// The 4-bit B-bus selector drives ALU input B:
///
/// | Selector | Source | Treatment           |
/// |----------|--------|---------------------|
/// | 0        | MDR    | direct              |
/// | 1        | PC     | direct              |
/// | 2        | MBR    | zero-extend         |
/// | 3        | MBRU   | sign-extend (bit 7) |
/// | 4        | SP     | direct              |
/// | 5        | LV     | direct              |
/// | 6        | CPP    | direct              |
/// | 7        | TOS    | direct              |
/// | 8        | OPC    | direct              |
#[derive(Debug, Default, Clone, Copy)]
pub struct Registers {
    pub mar: u32,
    pub mdr: u32,
    pub pc: u32,
    pub mbr: u8,
    pub sp: u32,
    pub lv: u32,
    pub cpp: u32,
    pub tos: u32,
    pub opc: u32,
    pub h: u32,
}

/// What can go wrong when the registers are loaded.
#[derive(Debug)]
pub enum RegisterParseError {
    Io(std::io::Error),
    InvalidLine { line: usize },
}

/// `x` sign-extended from 8 to 32 bits.
pub open spec fn sign_extend(x: u8) -> u32 {
    if x < 128 {
        x as u32
    } else {
        (x + 0xFFFF_FF00int) as u32
    }
}

/// The value that selector `selector` puts on the B-bus (`0` for selectors
/// above 8).
pub open spec fn b_bus_value(regs: Registers, selector: u8) -> u32 {
    if selector == 0 {
        regs.mdr
    } else if selector == 1 {
        regs.pc
    } else if selector == 2 {
        regs.mbr as u32
    } else if selector == 3 {
        sign_extend(regs.mbr)
    } else if selector == 4 {
        regs.sp
    } else if selector == 5 {
        regs.lv
    } else if selector == 6 {
        regs.cpp
    } else if selector == 7 {
        regs.tos
    } else if selector == 8 {
        regs.opc
    } else {
        0
    }
}

/// The name of the register that selector `selector` (at most 8) reads.
pub open spec fn b_bus_source_name(selector: u8) -> Seq<char> {
    if selector == 0 {
        "mdr"@
    } else if selector == 1 {
        "pc"@
    } else if selector == 2 {
        "mbr"@
    } else if selector == 3 {
        "mbru"@
    } else if selector == 4 {
        "sp"@
    } else if selector == 5 {
        "lv"@
    } else if selector == 6 {
        "cpp"@
    } else if selector == 7 {
        "tos"@
    } else {
        "opc"@
    }
}

impl Registers {
    /// The value on the B-bus for `selector`; selectors above 8 read `0`.
    pub fn b_bus_decode(&self, selector: u8) -> (r: u32)
        ensures
            r == b_bus_value(*self, selector),
    {
        match selector {
            0 => self.mdr,
            1 => self.pc,
            2 => self.mbr as u32,
            3 => {
                if self.mbr < 128 {
                    self.mbr as u32
                } else {
                    self.mbr as u32 + 0xFFFF_FF00
                }
            },
            4 => self.sp,
            5 => self.lv,
            6 => self.cpp,
            7 => self.tos,
            8 => self.opc,
            _ => 0,
        }
    }

    /// The name of the register that `selector` reads; there is none above 8.
    pub fn b_bus_name(selector: u8) -> (r: &'static str)
        requires
            selector <= 8,
        ensures
            r@ == b_bus_source_name(selector),
    {
        match selector {
            0 => "mdr",
            1 => "pc",
            2 => "mbr",
            3 => "mbru",
            4 => "sp",
            5 => "lv",
            6 => "cpp",
            7 => "tos",
            _ => "opc",
        }
    }
}

impl RegisterParseError {
    /// The error's message.
    pub fn to_string(&self) -> (r: String)
        ensures
            match self {
                RegisterParseError::Io(_) => "IO error reading registers: "@.is_prefix_of(r@),
                RegisterParseError::InvalidLine { line } => r@ == "invalid register line at line "@
                    + crate::text::dec_text(*line as nat),
            },
    {
        let mut out = String::new();
        match self {
            RegisterParseError::Io(e) => {
                crate::text::push_str(&mut out, "IO error reading registers: ");
                let t = crate::io_error::io_error_text(e);
                crate::text::push_str(&mut out, t.as_str());
            },
            RegisterParseError::InvalidLine { line } => {
                crate::text::push_str(&mut out, "invalid register line at line ");
                crate::text::push_dec(&mut out, *line as u64);
            },
        }
        out
    }
}

impl From<std::io::Error> for RegisterParseError {
    fn from(e: std::io::Error) -> (r: Self)
        ensures
            r == RegisterParseError::Io(e),
    {
        RegisterParseError::Io(e)
    }
}

impl vstd::std_specs::convert::FromSpecImpl<std::io::Error> for RegisterParseError {
    open spec fn obeys_from_spec() -> bool {
        true
    }

    open spec fn from_spec(v: std::io::Error) -> Self {
        RegisterParseError::Io(v)
    }
}

} // verus!
