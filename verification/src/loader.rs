//! Programs of the ALU exercises: one control word per line.
use vstd::prelude::*;
use crate::alu::{self, AluInstruction, AluParseError};
use crate::text;

verus! {

/// Why a program could not be loaded.
#[derive(Debug)]
pub enum LoaderError {
    Io(std::io::Error),
    /// The line (counted from 1) that is not a control word, and why.
    Line { line: usize, message: AluParseError },
}

impl From<std::io::Error> for LoaderError {
    fn from(e: std::io::Error) -> (r: Self)
        ensures
            r == LoaderError::Io(e),
    {
        LoaderError::Io(e)
    }
}

impl vstd::std_specs::convert::FromSpecImpl<std::io::Error> for LoaderError {
    open spec fn obeys_from_spec() -> bool {
        true
    }

    open spec fn from_spec(v: std::io::Error) -> Self {
        LoaderError::Io(v)
    }
}

/// The program of `ls[..n]`: lines that are blank once their trailing white
/// space is gone are skipped; every other line is a control word (see
/// [`alu::alu_parse`]). The first line that is not fails, with its number
/// counted from 1.
pub open spec fn program_lines(ls: Seq<Seq<char>>, n: nat) -> Result<
    Seq<AluInstruction>,
    (nat, AluParseError),
>
    decreases n,
{
    if n == 0 {
        Ok(Seq::empty())
    } else {
        match program_lines(ls, (n - 1) as nat) {
            Err(e) => Err(e),
            Ok(p) => {
                let l = text::trim_end(ls[n - 1]);
                if l.len() == 0 {
                    Ok(p)
                } else {
                    match alu::alu_parse(l) {
                        Ok(i) => Ok(p.push(i)),
                        Err(m) => Err((n, m)),
                    }
                }
            },
        }
    }
}

/// The program read from the text `s`.
pub open spec fn program_parse(s: Seq<char>) -> Result<Seq<AluInstruction>, (nat, AluParseError)> {
    program_lines(text::lines(s), text::lines(s).len())
}

proof fn lemma_program_lines_err(ls: Seq<Seq<char>>, n: nat, m: nat)
    requires
        n <= m,
        program_lines(ls, n) is Err,
    ensures
        program_lines(ls, m) == program_lines(ls, n),
    decreases m - n,
{
    if n < m {
        lemma_program_lines_err(ls, n, (m - 1) as nat);
    }
}

/// Reads a program from text: one control word of 6 or 8 binary digits per
/// line; blank lines (a trailing empty line too) are skipped.
pub fn parse_program(contents: &str) -> (r: Result<Vec<AluInstruction>, LoaderError>)
    ensures
        match r {
            Ok(p) => program_parse(contents@) == Ok::<Seq<AluInstruction>, (nat, AluParseError)>(
                p@,
            ),
            Err(LoaderError::Line { line, message }) => program_parse(contents@) == Err::<
                Seq<AluInstruction>,
                (nat, AluParseError),
            >((line as nat, message)),
            Err(LoaderError::Io(_)) => false,
        },
{
    let chars = text::chars_in_bounds(contents);
    let ls = text::split_lines(&chars);
    let ghost lsv = ls@.map_values(|l: Vec<char>| l@);
    proof {
        text::lemma_utf8_len_lines_from(chars@, 0);
    }
    let mut program: Vec<AluInstruction> = Vec::new();
    let mut k: usize = 0;
    while k < ls.len()
        invariant
            k <= ls.len(),
            lsv == ls@.map_values(|l: Vec<char>| l@),
            lsv == text::lines(contents@),
            text::utf8_len(contents@) <= usize::MAX,
            forall|j: int|
                0 <= j < lsv.len() ==> text::utf8_len(#[trigger] lsv[j]) <= text::utf8_len(
                    contents@,
                ),
            program_lines(lsv, k as nat) == Ok::<Seq<AluInstruction>, (nat, AluParseError)>(
                program@,
            ),
        decreases ls.len() - k,
    {
        assert(ls@[k as int]@ == lsv[k as int]);
        let line = text::trim_end_chars(&ls[k]);
        proof {
            text::lemma_utf8_len_trim(lsv[k as int]);
        }
        if line.len() > 0 {
            match AluInstruction::parse_chars(&line) {
                Ok(instr) => {
                    program.push(instr);
                },
                Err(message) => {
                    proof {
                        lemma_program_lines_err(lsv, (k + 1) as nat, lsv.len());
                    }
                    return Err(LoaderError::Line { line: k + 1, message });
                },
            }
        }
        k = k + 1;
    }
    Ok(program)
}

/// The message of a loading error, for a line error.
pub open spec fn line_error_text(line: usize, message: AluParseError) -> Seq<char> {
    "Failed to load program due to Alu parsing error on "@ + text::dec_text(line as nat) + ": "@
        + alu::alu_parse_error_text(message)
}

impl LoaderError {
    /// The error's message.
    pub fn to_string(&self) -> (r: String)
        ensures
            match self {
                LoaderError::Line { line, message } => r@ == line_error_text(*line, *message),
                LoaderError::Io(_) => "Failed to load program due to IO error: "@.is_prefix_of(r@),
            },
    {
        let mut out = String::new();
        match self {
            LoaderError::Line { line, message } => {
                text::push_str(&mut out, "Failed to load program due to Alu parsing error on ");
                text::push_dec(&mut out, *line as u64);
                text::push_str(&mut out, ": ");
                let m = message.to_string();
                text::push_str(&mut out, m.as_str());
                assert(out@ =~= line_error_text(*line, *message));
            },
            LoaderError::Io(io) => {
                text::push_str(&mut out, "Failed to load program due to IO error: ");
                let t = crate::io_error::io_error_text(io);
                text::push_str(&mut out, t.as_str());
                text::push_str(&mut out, "\n");
                assert("Failed to load program due to IO error: "@.is_prefix_of(out@)) by {
                    assert(out@.subrange(0, "Failed to load program due to IO error: "@.len() as int)
                        =~= "Failed to load program due to IO error: "@);
                }
            },
        }
        out
    }
}

} // verus!
