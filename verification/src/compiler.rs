//! Back-end: re-maps the intermediate opcode names of a rendered program
//! onto target-architecture opcode tokens, and serializes the result into
//! the machine's fixed-capacity memory image.

use vstd::prelude::*;
use vstd::string::StringSliceAdditionalSpecFns;

pub mod compile;
pub mod image;

verus! {

/// The target architecture's own instruction mnemonics.
#[derive(Clone, Copy, Debug, PartialEq, Eq, Structural)]
pub enum Inst {
    LDC,
    LDM,
    ADC,
    ADM,
    STR,
    CLR,
    BRA,
    BZ,
}

/// The instruction mapper: two equal-length, index-aligned tables of
/// intermediate opcode display names and target opcode tokens.
pub struct Compiler<'a> {
    pub inst_set: &'a [&'a str],
    pub op_codes: &'a [&'a str],
}

/// The reasons the back-end rejects a rendered program.
#[derive(Debug)]
pub enum CompilerError {
    NewLine,
    UnknownInst(Vec<u8>),
    ShortHex(Vec<u8>),
}

/// Mathematical content of a `CompilerError`.
pub ghost enum CompilerErrModel {
    NewLine,
    UnknownInst(Seq<u8>),
    ShortHex(Seq<u8>),
}

impl View for CompilerError {
    type V = CompilerErrModel;

    open spec fn view(&self) -> CompilerErrModel {
        match self {
            CompilerError::NewLine => CompilerErrModel::NewLine,
            CompilerError::UnknownInst(v) => CompilerErrModel::UnknownInst(v@),
            CompilerError::ShortHex(v) => CompilerErrModel::ShortHex(v@),
        }
    }
}

impl<'a> Compiler<'a> {
    /// The name table as byte strings.
    pub open spec fn names(self) -> Seq<Seq<u8>> {
        self.inst_set@.map_values(|s: &str| s.spec_bytes())
    }

    /// The target token table as byte strings.
    pub open spec fn codes(self) -> Seq<Seq<u8>> {
        self.op_codes@.map_values(|s: &str| s.spec_bytes())
    }

    /// Both tables have the same length, asserted at construction.
    pub open spec fn wf(self) -> bool {
        self.inst_set@.len() == self.op_codes@.len()
    }

    /// A mapper over the given tables; mismatched lengths are a
    /// programming error, ruled out at construction.
    pub fn new(inst_set: &'a [&'a str], op_codes: &'a [&'a str]) -> (r: Compiler<'a>)
        requires
            inst_set@.len() == op_codes@.len(),
        ensures
            r.wf(),
            r.inst_set@ == inst_set@,
            r.op_codes@ == op_codes@,
    {
        Compiler { inst_set, op_codes }
    }
}

} // verus!
