//! The word memory, the memory operations and the B-bus sources.
use vstd::prelude::*;
use crate::microinstruction::{self, MicroInstruction};
use crate::text;

verus! {

/// Memory of 16 words of 32 bits, addressed by `mar`.
#[derive(Debug, Clone, Copy, PartialEq, Eq)]
pub struct Memory(pub [u32; 16]);

impl View for Memory {
    type V = Seq<u32>;

    open spec fn view(&self) -> Seq<u32> {
        self.0@
    }
}

/// Sixteen zero words.
pub open spec fn zero_words() -> Seq<u32> {
    Seq::new(16, |i: int| 0u32)
}

/// The memory operation of a micro-instruction (two bits: `00` none, `01`
/// read, `10` write, `11` both).
#[derive(Clone, Copy, Debug, PartialEq, Eq, Structural)]
pub enum MemoryOperation {
    Idle,
    Read,
    Write,
    ReadWrite,
}

/// The source register of the B-bus (selectors 0 to 9).
#[derive(Clone, Copy, Debug, PartialEq, Eq, Structural)]
pub enum BBus {
    Mdr,
    Pc,
    Mbr,
    Mbru,
    Sp,
    Lv,
    Cpp,
    Tos,
    Opc,
    H,
}

/// Why a memory image could not be read.
#[derive(Debug, PartialEq, Eq, Structural)]
pub enum MemoryLoadError {
    /// More than 16 words.
    TooManyLines,
    /// A word that is not 32 binary digits.
    NonBinarySegment,
}

/// The two bits of a memory operation.
pub open spec fn memory_operation_bits(op: MemoryOperation) -> u8 {
    match op {
        MemoryOperation::Idle => 0,
        MemoryOperation::Read => 1,
        MemoryOperation::Write => 2,
        MemoryOperation::ReadWrite => 3,
    }
}

/// The selector of a B-bus source.
pub open spec fn bbus_selector(b: BBus) -> u8 {
    match b {
        BBus::Mdr => 0,
        BBus::Pc => 1,
        BBus::Mbr => 2,
        BBus::Mbru => 3,
        BBus::Sp => 4,
        BBus::Lv => 5,
        BBus::Cpp => 6,
        BBus::Tos => 7,
        BBus::Opc => 8,
        BBus::H => 9,
    }
}

/// The name of a B-bus source.
pub open spec fn bbus_name(b: BBus) -> Seq<char> {
    match b {
        BBus::Mdr => "mdr"@,
        BBus::Pc => "pc"@,
        BBus::Mbr => "mbr"@,
        BBus::Mbru => "mbru"@,
        BBus::Sp => "sp"@,
        BBus::Lv => "lv"@,
        BBus::Cpp => "cpp"@,
        BBus::Tos => "tos"@,
        BBus::Opc => "opc"@,
        BBus::H => "h"@,
    }
}

impl Memory {
    /// Sixteen zero words.
    pub fn zero() -> (r: Self)
        ensures
            r@ == zero_words(),
    {
        let r = Self([0;16]);
        assert(r@ =~= zero_words());
        r
    }

    /// The word at `addr`.
    pub fn read(&self, addr: u32) -> (r: u32)
        requires
            addr < 16,
        ensures
            r == self@[addr as int],
    {
        self.0[addr as usize]
    }

    /// Stores `value` at `addr`.
    pub fn write(&mut self, addr: u32, value: u32)
        requires
            addr < 16,
        ensures
            final(self)@ == old(self)@.update(addr as int, value),
    {
        self.0[addr as usize] = value;
    }
}

/// After a write, a read of the same address gives the value written and a
/// read of any other address gives what it gave before.
pub proof fn lemma_read_after_write(m: Seq<u32>, addr: int, value: u32, other: int)
    requires
        m.len() == 16,
        0 <= addr < 16,
        0 <= other < 16,
    ensures
        m.update(addr, value)[addr] == value,
        other != addr ==> m.update(addr, value)[other] == m[other],
        m.update(addr, value).len() == 16,
{
}

impl MemoryOperation {
    /// The two bits of the operation.
    pub fn bits(self) -> (r: u8)
        ensures
            r == memory_operation_bits(self),
    {
        match self {
            MemoryOperation::Idle => 0,
            MemoryOperation::Read => 1,
            MemoryOperation::Write => 2,
            MemoryOperation::ReadWrite => 3,
        }
    }
}

impl BBus {
    /// The selector of the source.
    pub fn selector(self) -> (r: u8)
        ensures
            r == bbus_selector(self),
    {
        match self {
            BBus::Mdr => 0,
            BBus::Pc => 1,
            BBus::Mbr => 2,
            BBus::Mbru => 3,
            BBus::Sp => 4,
            BBus::Lv => 5,
            BBus::Cpp => 6,
            BBus::Tos => 7,
            BBus::Opc => 8,
            BBus::H => 9,
        }
    }

    /// The name of the source register.
    pub fn name(self) -> (r: &'static str)
        ensures
            r@ == bbus_name(self),
    {
        match self {
            BBus::Mdr => "mdr",
            BBus::Pc => "pc",
            BBus::Mbr => "mbr",
            BBus::Mbru => "mbru",
            BBus::Sp => "sp",
            BBus::Lv => "lv",
            BBus::Cpp => "cpp",
            BBus::Tos => "tos",
            BBus::Opc => "opc",
            BBus::H => "h",
        }
    }
}

/// The lower-case name of the register at C-bus bit `bit`.
pub open spec fn c_target_name(bit: int) -> Seq<char> {
    if bit == 8 {
        "h"@
    } else if bit == 7 {
        "opc"@
    } else if bit == 6 {
        "tos"@
    } else if bit == 5 {
        "cpp"@
    } else if bit == 4 {
        "lv"@
    } else if bit == 3 {
        "sp"@
    } else if bit == 2 {
        "pc"@
    } else if bit == 1 {
        "mdr"@
    } else {
        "mar"@
    }
}

/// The lower-case names of the registers that `c_sel` writes, from bit 8
/// (`h`) down to bit 0 (`mar`).
pub open spec fn c_targets(c_sel: u16) -> Seq<Seq<char>> {
    microinstruction::selected_bits(c_sel, 0, 9).reverse().map_values(|b: int| c_target_name(b))
}

fn c_target_name_of(bit: u16) -> (r: &'static str)
    requires
        bit <= 8,
    ensures
        r@ == c_target_name(bit as int),
{
    match bit {
        8 => "h",
        7 => "opc",
        6 => "tos",
        5 => "cpp",
        4 => "lv",
        3 => "sp",
        2 => "pc",
        1 => "mdr",
        _ => "mar",
    }
}

impl MicroInstruction {
    /// The names of the registers written on the C-bus in this cycle, from
    /// bit 8 (`h`) down to bit 0 (`mar`).
    pub fn c_bus_targets(self) -> (r: Vec<&'static str>)
        ensures
            r@.map_values(|s: &'static str| s@) == c_targets(self.c_sel),
    {
        let c: u16 = self.c_sel;
        let mut out: Vec<&'static str> = Vec::new();
        let mut i: u16 = 0;
        assert(microinstruction::selected_bits(c, 9, 9) =~= Seq::<int>::empty());
        while i <= 8
            invariant
                i <= 9,
                out@.map_values(|s: &'static str| s@) == microinstruction::selected_bits(
                    c,
                    9 - i,
                    9,
                ).reverse().map_values(|b: int| c_target_name(b)),
            decreases 9 - i,
        {
            let bit: u16 = 8 - i;
            let ghost before = out@.map_values(|s: &'static str| s@);
            let ghost rest = microinstruction::selected_bits(c, bit + 1, 9);
            proof {
                microinstruction::lemma_selected_bits_prepend(c, bit as int, 9);
            }
            if (c >> bit) & 1 == 1 {
                assert(((c >> bit) & 1 == 1) == (c & (1u16 << bit) != 0))
                    by (bit_vector)
                    requires
                        bit <= 8,
                ;
                let name = c_target_name_of(bit);
                out.push(name);
                proof {
                    let full = microinstruction::selected_bits(c, bit as int, 9);
                    assert(full =~= seq![bit as int] + rest);
                    assert(full.reverse() =~= rest.reverse().push(bit as int));
                    assert(out@.map_values(|s: &'static str| s@) =~= before.push(name@));
                    assert(full.reverse().map_values(|b: int| c_target_name(b)) =~= rest.reverse().map_values(
                        |b: int| c_target_name(b),
                    ).push(c_target_name(bit as int)));
                }
            } else {
                assert(((c >> bit) & 1 == 1) == (c & (1u16 << bit) != 0))
                    by (bit_vector)
                    requires
                        bit <= 8,
                ;
                proof {
                    let full = microinstruction::selected_bits(c, bit as int, 9);
                    assert(full =~= rest);
                }
            }
            i = i + 1;
        }
        out
    }
}

/// The words of a memory image read from `ls[..n]`: blank lines (once
/// trimmed) are skipped; every other line must be a word of 32 binary digits,
/// and there may be at most 16 of them.
pub open spec fn memory_words(ls: Seq<Seq<char>>, n: nat) -> Result<Seq<u32>, MemoryLoadError>
    decreases n,
{
    if n == 0 {
        Ok(Seq::empty())
    } else {
        match memory_words(ls, (n - 1) as nat) {
            Err(e) => Err(e),
            Ok(w) => {
                let line = text::trim(ls[n - 1]);
                if line.len() == 0 {
                    Ok(w)
                } else if w.len() >= 16 {
                    Err(MemoryLoadError::TooManyLines)
                } else if !(line.len() == 32 && text::all_binary(line)) {
                    Err(MemoryLoadError::NonBinarySegment)
                } else {
                    Ok(w.push(text::bin_value(line) as u32))
                }
            },
        }
    }
}

/// A memory image read from text: the words, then zeros up to 16.
pub open spec fn memory_parse(s: Seq<char>) -> Result<Seq<u32>, MemoryLoadError> {
    let ls = text::lines(s);
    match memory_words(ls, ls.len()) {
        Ok(w) => Ok(w + Seq::new((16 - w.len()) as nat, |i: int| 0u32)),
        Err(e) => Err(e),
    }
}

proof fn lemma_memory_words_err(ls: Seq<Seq<char>>, n: nat, m: nat)
    requires
        n <= m,
        memory_words(ls, n) is Err,
    ensures
        memory_words(ls, m) == memory_words(ls, n),
    decreases m - n,
{
    if n < m {
        lemma_memory_words_err(ls, n, (m - 1) as nat);
    }
}

impl Memory {
    /// Reads a memory image: one word of 32 binary digits per line, blank
    /// lines skipped, at most 16 words; missing words are zero.
    pub fn parse(contents: &str) -> (r: Result<Memory, MemoryLoadError>)
        ensures
            match r {
                Ok(m) => memory_parse(contents@) == Ok::<Seq<u32>, MemoryLoadError>(m@),
                Err(e) => memory_parse(contents@) == Err::<Seq<u32>, MemoryLoadError>(e),
            },
    {
        let chars = text::chars_of(contents);
        let ls = text::split_lines(&chars);
        let ghost lsv = ls@.map_values(|l: Vec<char>| l@);
        let mut mem = Memory::zero();
        let mut count: usize = 0;
        let mut k: usize = 0;
        while k < ls.len()
            invariant
                k <= ls.len(),
                lsv == ls@.map_values(|l: Vec<char>| l@),
                lsv == text::lines(contents@),
                count <= 16,
                memory_words(lsv, k as nat) is Ok,
                memory_words(lsv, k as nat)->Ok_0.len() == count,
                mem@ == memory_words(lsv, k as nat)->Ok_0 + Seq::new(
                    (16 - count) as nat,
                    |i: int| 0u32,
                ),
            decreases ls.len() - k,
        {
            let line = text::trim_chars(&ls[k]);
            assert(ls@[k as int]@ == lsv[k as int]);
            let ghost w = memory_words(lsv, k as nat)->Ok_0;
            if line.len() == 0 {
            } else if count >= 16 {
                proof {
                    lemma_memory_words_err(lsv, (k + 1) as nat, lsv.len());
                }
                return Err(MemoryLoadError::TooManyLines);
            } else if !(line.len() == 32 && text::is_all_binary(&line)) {
                proof {
                    lemma_memory_words_err(lsv, (k + 1) as nat, lsv.len());
                }
                return Err(MemoryLoadError::NonBinarySegment);
            } else {
                proof {
                    text::lemma_bin_value_fits(line@, 32);
                }
                let word = text::bin_value_of(&line);
                mem.0[count] = word;
                count = count + 1;
                assert(mem@ =~= w.push(word) + Seq::new((16 - count) as nat, |i: int| 0u32));
            }
            k = k + 1;
        }
        Ok(mem)
    }
}

impl MemoryLoadError {
    /// The error's message.
    pub fn to_string(&self) -> (r: String)
        ensures
            r@ == match self {
                MemoryLoadError::TooManyLines => "too many lines"@,
                MemoryLoadError::NonBinarySegment => "non binary memory segment"@,
            },
    {
        let mut out = String::new();
        match self {
            MemoryLoadError::TooManyLines => text::push_str(&mut out, "too many lines"),
            MemoryLoadError::NonBinarySegment => text::push_str(
                &mut out,
                "non binary memory segment",
            ),
        }
        assert(out@ =~= match self {
            MemoryLoadError::TooManyLines => "too many lines"@,
            MemoryLoadError::NonBinarySegment => "non binary memory segment"@,
        });
        out
    }
}

/// The number of lines of `ls[..n]` that are not blank once trimmed.
pub open spec fn nonblank_count(ls: Seq<Seq<char>>, n: nat) -> nat
    decreases n,
{
    if n == 0 {
        0
    } else {
        nonblank_count(ls, (n - 1) as nat) + if text::trim(ls[n - 1]).len() > 0 {
            1nat
        } else {
            0nat
        }
    }
}

/// The binary values of the lines of `ls[..n]` that are not blank, in order.
pub open spec fn nonblank_values(ls: Seq<Seq<char>>, n: nat) -> Seq<u32>
    decreases n,
{
    if n == 0 {
        Seq::empty()
    } else if text::trim(ls[n - 1]).len() > 0 {
        nonblank_values(ls, (n - 1) as nat).push(text::bin_value(text::trim(ls[n - 1])) as u32)
    } else {
        nonblank_values(ls, (n - 1) as nat)
    }
}

/// Every line of `ls[..n]` that is not blank is a word of 32 binary digits.
pub open spec fn all_words(ls: Seq<Seq<char>>, n: nat) -> bool {
    forall|k: int|
        0 <= k < n && text::trim(#[trigger] ls[k]).len() > 0 ==> text::trim(ls[k]).len() == 32
            && text::all_binary(text::trim(ls[k]))
}

proof fn lemma_nonblank_values_len(ls: Seq<Seq<char>>, n: nat)
    ensures
        nonblank_values(ls, n).len() == nonblank_count(ls, n),
    decreases n,
{
    if n > 0 {
        lemma_nonblank_values_len(ls, (n - 1) as nat);
    }
}

/// Up to 16 words load: when every line that is not blank is a word of 32
/// binary digits and there are at most 16 of them, the image reads as those
/// words in order.
pub proof fn lemma_memory_words_load(ls: Seq<Seq<char>>, n: nat)
    requires
        n <= ls.len(),
        all_words(ls, n),
        nonblank_count(ls, n) <= 16,
    ensures
        memory_words(ls, n) == Ok::<Seq<u32>, MemoryLoadError>(nonblank_values(ls, n)),
    decreases n,
{
    if n > 0 {
        lemma_memory_words_load(ls, (n - 1) as nat);
        lemma_nonblank_values_len(ls, (n - 1) as nat);
        let l = text::trim(ls[n - 1]);
        if l.len() > 0 {
            assert(l.len() == 32 && text::all_binary(l));
        }
    }
}

/// The image counts its words: when it reads, there is one word per line
/// that is not blank; it has too many lines only when more than 16 lines are
/// not blank; a segment error comes from a line that is not blank and not 32
/// binary digits.
pub proof fn lemma_memory_words_errors(ls: Seq<Seq<char>>, n: nat)
    requires
        n <= ls.len(),
    ensures
        memory_words(ls, n) is Ok ==> memory_words(ls, n)->Ok_0.len() == nonblank_count(ls, n),
        memory_words(ls, n) == Err::<Seq<u32>, MemoryLoadError>(MemoryLoadError::TooManyLines)
            ==> nonblank_count(ls, n) > 16,
        memory_words(ls, n) == Err::<Seq<u32>, MemoryLoadError>(
            MemoryLoadError::NonBinarySegment,
        ) ==> !all_words(ls, n),
    decreases n,
{
    if n > 0 {
        lemma_memory_words_errors(ls, (n - 1) as nat);
        if !all_words(ls, (n - 1) as nat) {
            let k = choose|k: int|
                !(0 <= k < n - 1 && text::trim(#[trigger] ls[k]).len() > 0 ==> text::trim(
                    ls[k],
                ).len() == 32 && text::all_binary(text::trim(ls[k])));
            assert(!(0 <= k < n && text::trim(ls[k]).len() > 0 ==> text::trim(ls[k]).len() == 32
                && text::all_binary(text::trim(ls[k]))));
        }
        let l = text::trim(ls[n - 1]);
        if l.len() > 0 && !(l.len() == 32 && text::all_binary(l)) {
            assert(!(0 <= n - 1 < n && text::trim(ls[n - 1]).len() > 0 ==> text::trim(
                ls[n - 1],
            ).len() == 32 && text::all_binary(text::trim(ls[n - 1]))));
        }
    }
}

/// A memory image of at most 16 words of 32 binary digits (blank lines
/// aside) loads: word `i` is the value of the `i`-th word line and the
/// remaining words are zero. Too many lines is reported only for more than 16
/// word lines.
pub proof fn lemma_memory_parse_loads(s: Seq<char>)
    ensures
        all_words(text::lines(s), text::lines(s).len()) && nonblank_count(
            text::lines(s),
            text::lines(s).len(),
        ) <= 16 ==> memory_parse(s) == Ok::<Seq<u32>, MemoryLoadError>(
            nonblank_values(text::lines(s), text::lines(s).len()) + Seq::new(
                (16 - nonblank_count(text::lines(s), text::lines(s).len())) as nat,
                |i: int| 0u32,
            ),
        ),
        memory_parse(s) == Err::<Seq<u32>, MemoryLoadError>(MemoryLoadError::TooManyLines)
            ==> nonblank_count(text::lines(s), text::lines(s).len()) > 16,
{
    let ls = text::lines(s);
    lemma_memory_words_errors(ls, ls.len());
    lemma_nonblank_values_len(ls, ls.len());
    if all_words(ls, ls.len()) && nonblank_count(ls, ls.len()) <= 16 {
        lemma_memory_words_load(ls, ls.len());
    }
}

} // verus!
