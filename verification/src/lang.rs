//! Front-end: data model of the intermediate language and the source
//! compiler that turns source text into an instruction sequence.

use vstd::prelude::*;

use crate::MEM_SIZE;
use crate::lang::table::NameTable;

pub mod compile;
pub mod inst;
pub mod table;
pub mod text;

verus! {

/// Intermediate opcodes, independent of any target encoding.
#[derive(Clone, Copy, Debug, PartialEq, Eq, Structural)]
pub enum OpCode {
    LDC,
    LDM,
    ADC,
    ADM,
    STR,
    CLR,
    BRA,
    BRQ,
}

/// One intermediate instruction: an opcode and a one-byte operand whose
/// meaning depends on the opcode (literal, memory address, or instruction
/// index).
#[derive(Clone, Copy, Debug, PartialEq, Eq, Structural)]
pub struct Inst {
    pub op: OpCode,
    pub val: u8,
}

/// The display name of an opcode, as it appears in the textual rendering.
pub open spec fn op_name(op: OpCode) -> Seq<u8> {
    match op {
        OpCode::LDC => seq![76u8, 68u8, 67u8],
        OpCode::LDM => seq![76u8, 68u8, 77u8],
        OpCode::ADC => seq![65u8, 68u8, 67u8],
        OpCode::ADM => seq![65u8, 68u8, 77u8],
        OpCode::STR => seq![83u8, 84u8, 82u8],
        OpCode::CLR => seq![67u8, 76u8, 82u8],
        OpCode::BRA => seq![66u8, 82u8, 65u8],
        OpCode::BRQ => seq![66u8, 82u8, 81u8],
    }
}

/// The reasons the front-end rejects a source program.
#[derive(Clone, Copy, Debug, PartialEq, Eq, Structural)]
pub enum ProgramError {
    VarAlreadyDefined,
    UnsupportedOperator,
    VarUndefined,
    BadSyntax,
    NoLabelLen,
    BadVarName,
    ReservedName,
    LabelNotFound,
    LabelNotSpecified,
    EmptyLineLabelled,
}

/// A front-end error together with the offending source line and its
/// 1-based line number.
#[derive(Debug)]
pub struct CompileError(pub ProgramError, pub Vec<u8>, pub usize);

/// Mathematical content of a `CompileError`.
#[verifier::ext_equal]
pub ghost struct CompileErrModel {
    pub err: ProgramError,
    pub line: Seq<u8>,
    pub line_no: int,
}

impl View for CompileError {
    type V = CompileErrModel;

    open spec fn view(&self) -> CompileErrModel {
        CompileErrModel { err: self.0, line: self.1@, line_no: self.2 as int }
    }
}

/// A jump whose target label was not yet declared when the jump was
/// emitted; the operand at `from` is patched once all lines are read.
pub struct UnresolvedJump {
    pub from: usize,
    pub to: Vec<u8>,
    pub line: Vec<u8>,
    pub line_no: usize,
}

/// Mathematical content of an `UnresolvedJump`.
#[verifier::ext_equal]
pub ghost struct JumpModel {
    pub from: int,
    pub to: Seq<u8>,
    pub line: Seq<u8>,
    pub line_no: int,
}

impl View for UnresolvedJump {
    type V = JumpModel;

    open spec fn view(&self) -> JumpModel {
        JumpModel {
            from: self.from as int,
            to: self.to@,
            line: self.line@,
            line_no: self.line_no as int,
        }
    }
}

/// Mathematical state of a program under compilation: the symbol table,
/// the allocation cursor, the instructions so far, the label table, and
/// the pending forward jumps.
#[verifier::ext_equal]
pub ghost struct ProgramModel {
    pub stack: Map<Seq<u8>, u8>,
    pub stack_i: u8,
    pub instructions: Seq<Inst>,
    pub jumps: Map<Seq<u8>, u8>,
    pub unresolved: Seq<JumpModel>,
}

impl ProgramModel {
    /// Every pending jump patches an instruction that exists.
    pub open spec fn wf(self) -> bool {
        forall|k: int|
            0 <= k < self.unresolved.len() ==> 0 <= (#[trigger] self.unresolved[k]).from
                < self.instructions.len()
    }
}

/// The model a fresh program starts from: empty tables, no instructions,
/// and the allocation cursor at `MEM_SIZE - stack_size` (or the middle of
/// memory when no stack size is requested).
pub open spec fn init_model(stack_size: Option<u8>) -> ProgramModel {
    ProgramModel {
        stack: Map::empty(),
        stack_i: match stack_size {
            Some(s) => (MEM_SIZE - s) as u8,
            None => MEM_SIZE / 2,
        },
        instructions: Seq::empty(),
        jumps: Map::empty(),
        unresolved: Seq::empty(),
    }
}

/// The model after appending one instruction.
pub open spec fn spec_push(m: ProgramModel, op: OpCode, val: u8) -> ProgramModel {
    ProgramModel { instructions: m.instructions.push(Inst { op, val }), ..m }
}

/// A program under compilation.
pub struct Program {
    pub stack: NameTable,
    pub stack_i: u8,
    pub instructions: Vec<Inst>,
    pub jumps: NameTable,
    pub unresolved_jumps: Vec<UnresolvedJump>,
}

impl View for Program {
    type V = ProgramModel;

    open spec fn view(&self) -> ProgramModel {
        ProgramModel {
            stack: self.stack@,
            stack_i: self.stack_i,
            instructions: self.instructions@,
            jumps: self.jumps@,
            unresolved: self.unresolved_jumps@.map_values(|j: UnresolvedJump| j@),
        }
    }
}

impl Program {
    /// The representation invariant: both name tables are well formed and
    /// the model invariant holds.
    pub open spec fn wf(self) -> bool {
        self.stack.wf() && self.jumps.wf() && self@.wf()
    }

    /// A fresh program; `stack_size` reserves that many cells at the top
    /// of memory for variables.
    pub fn new(stack_size: Option<u8>) -> (r: Program)
        ensures
            r.wf(),
            r@ =~= init_model(stack_size),
    {
        let stack_i = match stack_size {
            Some(s) => MEM_SIZE - s,
            None => MEM_SIZE / 2,
        };
        let r = Program {
            stack: NameTable::new(),
            stack_i,
            instructions: Vec::new(),
            jumps: NameTable::new(),
            unresolved_jumps: Vec::new(),
        };
        proof {
            assert(r@.unresolved =~= Seq::<JumpModel>::empty());
        }
        r
    }

    /// The instruction sequence built so far.
    pub fn get_inner(&self) -> (r: &Vec<Inst>)
        ensures
            r@ == self@.instructions,
    {
        &self.instructions
    }

    /// Appends one instruction.
    pub fn push_inst(&mut self, op: OpCode, val: u8)
        requires
            old(self).wf(),
        ensures
            final(self).wf(),
            final(self)@ == spec_push(old(self)@, op, val),
    {
        self.instructions.push(Inst { op, val });
        proof {
            assert(self@ =~= spec_push(old(self)@, op, val));
        }
    }

    /// Overwrites the instruction at `i`.
    pub fn set_inst(&mut self, i: usize, op: OpCode, val: u8)
        requires
            old(self).wf(),
            i < old(self)@.instructions.len(),
        ensures
            final(self).wf(),
            final(self)@ == (ProgramModel {
                instructions: old(self)@.instructions.update(i as int, Inst { op, val }),
                ..old(self)@
            }),
    {
        self.instructions[i] = Inst { op, val };
        proof {
            assert(self@ =~= ProgramModel {
                instructions: old(self)@.instructions.update(i as int, Inst { op, val }),
                ..old(self)@
            });
        }
    }
}

} // verus!
