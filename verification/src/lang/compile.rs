//! Line dispatch, the jump fix-up pass, and the textual rendering of a
//! program for the back-end.

use vstd::prelude::*;
use vstd::string::StringSliceAdditionalSpecFns;

use crate::lang::inst::{VarMode, spec_add_goto, spec_handle_var};
use crate::lang::text::{
    find_byte, find_byte_in, goto_kw, is_goto_kw_b, is_noop_kw_b, is_var_kw_b, lemma_find_byte,
    low_byte, noop_kw, trim, trim_slice, var_kw,
};
use crate::lang::{
    CompileErrModel, CompileError, Inst, JumpModel, OpCode, Program, ProgramError, ProgramModel,
    op_name, spec_push,
};

verus! {

/// One source line after its optional label clause was taken off: skip an
/// empty line, emit a no-op for `noop`, and otherwise hand the line to the
/// variable binder or the goto handler.  `l` is the whole trimmed line,
/// kept for diagnostics.
pub open spec fn spec_dispatch(
    m: ProgramModel,
    line: Seq<u8>,
    l: Seq<u8>,
    line_no: int,
) -> Result<ProgramModel, CompileErrModel> {
    let action = match find_byte(line, 0, 32) {
        None => line,
        Some(i) => line.subrange(0, i),
    };
    let args = match find_byte(line, 0, 32) {
        None => None,
        Some(i) => Some(line.subrange(i + 1, line.len() as int)),
    };
    if action.len() == 0 {
        Ok(m)
    } else if action == noop_kw() {
        Ok(spec_push(m, OpCode::ADC, 0))
    } else {
        let r = match args {
            Some(a) => if action == var_kw() {
                spec_handle_var(m, a, VarMode::NewVar)
            } else if action == goto_kw() {
                spec_add_goto(m, a, l, line_no)
            } else {
                spec_handle_var(m, line, VarMode::SetVar)
            },
            None => spec_handle_var(m, line, VarMode::SetVar),
        };
        match r {
            Ok(m2) => Ok(m2),
            Err(e) => Err(CompileErrModel { err: e, line: line, line_no: line_no }),
        }
    }
}

/// One raw source line: trim it, strip a trailing comment, record an
/// optional leading label clause (`label ; rest`) against the current
/// instruction count, and dispatch what remains.
pub open spec fn spec_process_line(m: ProgramModel, raw: Seq<u8>, line_no: int) -> Result<
    ProgramModel,
    CompileErrModel,
> {
    let l = trim(raw);
    let line0 = match find_byte(l, 0, 35) {
        None => l,
        Some(i) => l.subrange(0, i),
    };
    match find_byte(line0, 0, 59) {
        None => spec_dispatch(m, line0, l, line_no),
        Some(i) => if i == 0 {
            Err(CompileErrModel { err: ProgramError::NoLabelLen, line: l, line_no: line_no })
        } else {
            let rest = trim(line0.subrange(i + 1, line0.len() as int));
            if rest.len() == 0 {
                Err(
                    CompileErrModel {
                        err: ProgramError::EmptyLineLabelled,
                        line: l,
                        line_no: line_no,
                    },
                )
            } else {
                let label = trim(line0.subrange(0, i));
                let m1 = ProgramModel {
                    jumps: m.jumps.insert(label, low_byte(m.instructions.len() as int)),
                    ..m
                };
                spec_dispatch(m1, rest, l, line_no)
            }
        },
    }
}

/// A whole source text, line by line; line numbers are 1-based.
pub open spec fn spec_lines(m: ProgramModel, src: Seq<u8>, line_no: int) -> Result<
    ProgramModel,
    CompileErrModel,
>
    decreases src.len(),
{
    if src.len() == 0 {
        Ok(m)
    } else {
        match find_byte(src, 0, 10) {
            None => spec_process_line(m, src, line_no),
            Some(i) => if 0 <= i < src.len() {
                match spec_process_line(m, src.subrange(0, i), line_no) {
                    Ok(m2) => spec_lines(m2, src.subrange(i + 1, src.len() as int), line_no + 1),
                    Err(e) => Err(e),
                }
            } else {
                Ok(m)
            },
        }
    }
}

/// The fix-up pass over the pending forward jumps, from index `k` on:
/// each pending site takes the final index of its label, keeping its
/// opcode; a label never declared is an error carrying the goto's source
/// line.  Afterwards no jump is pending.
pub open spec fn spec_resolve(m: ProgramModel, k: int) -> Result<ProgramModel, CompileErrModel>
    decreases m.unresolved.len() - k when 0 <= k
{
    if k >= m.unresolved.len() {
        Ok(ProgramModel { unresolved: Seq::empty(), ..m })
    } else {
        let j = m.unresolved[k];
        if !m.jumps.contains_key(j.to) {
            Err(CompileErrModel { err: ProgramError::LabelNotFound, line: j.line, line_no: j.line_no })
        } else if 0 <= j.from < m.instructions.len() {
            spec_resolve(
                ProgramModel {
                    instructions: m.instructions.update(
                        j.from,
                        Inst { op: m.instructions[j.from].op, val: m.jumps[j.to] },
                    ),
                    ..m
                },
                k + 1,
            )
        } else {
            Err(
                CompileErrModel {
                    err: ProgramError::LabelNotFound,
                    line: j.line,
                    line_no: j.line_no,
                },
            )
        }
    }
}

/// A whole compilation of source text onto an existing program: every
/// line in order, then the jump fix-up pass.
pub open spec fn spec_append(m: ProgramModel, src: Seq<u8>) -> Result<
    ProgramModel,
    CompileErrModel,
> {
    match spec_lines(m, src, 1) {
        Ok(m2) => spec_resolve(m2, 0),
        Err(e) => Err(e),
    }
}

/// The lower-case hex digit of a value below sixteen.
pub open spec fn hex_digit(n: int) -> u8
    recommends
        0 <= n < 16,
{
    if n < 10 {
        (48 + n) as u8
    } else {
        (87 + n) as u8
    }
}

/// A byte as two lower-case hex digits.
pub open spec fn hex_byte(v: u8) -> Seq<u8> {
    seq![hex_digit(v as int / 16), hex_digit(v as int % 16)]
}

/// One rendered instruction: opcode name, a space, the operand as two hex
/// digits, and a newline.
pub open spec fn render_inst(i: Inst) -> Seq<u8> {
    op_name(i.op) + seq![32u8] + hex_byte(i.val) + seq![10u8]
}

/// The textual rendering the back-end consumes: one line per instruction.
pub open spec fn spec_render(insts: Seq<Inst>) -> Seq<u8>
    decreases insts.len(),
{
    if insts.len() == 0 {
        Seq::empty()
    } else {
        render_inst(insts[0]) + spec_render(insts.drop_first())
    }
}

/// Rendering distributes over appending one instruction.
pub proof fn lemma_render_push(insts: Seq<Inst>, x: Inst)
    ensures
        spec_render(insts.push(x)) == spec_render(insts) + render_inst(x),
    decreases insts.len(),
{
    if insts.len() == 0 {
        assert(insts.push(x)[0] == x);
        assert(insts.push(x).drop_first() =~= insts);
        assert(spec_render(insts) =~= Seq::<u8>::empty());
        assert(spec_render(insts.push(x)) =~= spec_render(insts) + render_inst(x));
    } else {
        assert(insts.push(x)[0] == insts[0]);
        assert(insts.push(x).drop_first() =~= insts.drop_first().push(x));
        lemma_render_push(insts.drop_first(), x);
        assert(spec_render(insts.push(x)) =~= spec_render(insts) + render_inst(x));
    }
}

/// Appends the display name of `op` to `out`.
fn push_op_name(out: &mut Vec<u8>, op: OpCode)
    ensures
        final(out)@ == old(out)@ + op_name(op),
{
    match op {
        OpCode::LDC => {
            out.push(76);
            out.push(68);
            out.push(67);
        },
        OpCode::LDM => {
            out.push(76);
            out.push(68);
            out.push(77);
        },
        OpCode::ADC => {
            out.push(65);
            out.push(68);
            out.push(67);
        },
        OpCode::ADM => {
            out.push(65);
            out.push(68);
            out.push(77);
        },
        OpCode::STR => {
            out.push(83);
            out.push(84);
            out.push(82);
        },
        OpCode::CLR => {
            out.push(67);
            out.push(76);
            out.push(82);
        },
        OpCode::BRA => {
            out.push(66);
            out.push(82);
            out.push(65);
        },
        OpCode::BRQ => {
            out.push(66);
            out.push(82);
            out.push(81);
        },
    }
    proof {
        assert(out@ =~= old(out)@ + op_name(op));
    }
}

/// The lower-case hex digit of a value below sixteen.
fn hex_digit_b(n: u8) -> (r: u8)
    requires
        n < 16,
    ensures
        r == hex_digit(n as int),
{
    if n < 10 {
        48 + n
    } else {
        87 + n
    }
}

impl Program {
    /// Processes one raw source line.
    fn process_line(&mut self, raw: &[u8], line_no: usize) -> (r: Result<(), CompileError>)
        requires
            old(self).wf(),
        ensures
            final(self).wf(),
            match spec_process_line(old(self)@, raw@, line_no as int) {
                Ok(pm) => r == Ok::<(), CompileError>(()) && final(self)@ == pm,
                Err(em) => r matches Err(ce) && ce@ == em,
            },
    {
        let l = trim_slice(raw);
        // fixes the trimmed line's length as a machine word for the index arithmetic below
        let l_len: usize = l.len();
        let line0 = match find_byte_in(l, 0, 35) {
            None => l,
            Some(i) => {
                proof {
                    lemma_find_byte(l@, 0, 35);
                }
                vstd::slice::slice_subrange(l, 0, i)
            },
        };
        let line: &[u8];
        match find_byte_in(line0, 0, 59) {
            None => {
                line = line0;
            },
            Some(i) => {
                proof {
                    lemma_find_byte(line0@, 0, 59);
                }
                if i == 0 {
                    return Err(
                        CompileError(
                            ProgramError::NoLabelLen,
                            vstd::slice::slice_to_vec(l),
                            line_no,
                        ),
                    );
                }
                let rest = trim_slice(
                    vstd::slice::slice_subrange(line0, i + 1, line0.len()),
                );
                if rest.len() == 0 {
                    return Err(
                        CompileError(
                            ProgramError::EmptyLineLabelled,
                            vstd::slice::slice_to_vec(l),
                            line_no,
                        ),
                    );
                }
                let label = trim_slice(vstd::slice::slice_subrange(line0, 0, i));
                let idx = (self.instructions.len() % 256) as u8;
                self.jumps.set(vstd::slice::slice_to_vec(label), idx);
                line = rest;
            },
        }
        let action = match find_byte_in(line, 0, 32) {
            None => line,
            Some(i) => {
                proof {
                    lemma_find_byte(line@, 0, 32);
                }
                vstd::slice::slice_subrange(line, 0, i)
            },
        };
        let args: Option<&[u8]> = match find_byte_in(line, 0, 32) {
            None => None,
            Some(i) => {
                proof {
                    lemma_find_byte(line@, 0, 32);
                }
                Some(vstd::slice::slice_subrange(line, i + 1, line.len()))
            },
        };
        if action.len() == 0 {
            return Ok(());
        }
        if is_noop_kw_b(action) {
            self.push_inst(OpCode::ADC, 0);
            return Ok(());
        }
        let rr: Result<(), ProgramError> = match args {
            Some(a) => {
                if is_var_kw_b(action) {
                    self.handle_var_b(a, VarMode::NewVar)
                } else if is_goto_kw_b(action) {
                    self.add_goto_b(a, l, line_no)
                } else {
                    self.handle_var_b(line, VarMode::SetVar)
                }
            },
            None => self.handle_var_b(line, VarMode::SetVar),
        };
        match rr {
            Ok(()) => Ok(()),
            Err(e) => Err(CompileError(e, vstd::slice::slice_to_vec(line), line_no)),
        }
    }

    /// Compiles whole source text onto this program: every line in order,
    /// then the jump fix-up pass.  On success the program holds exactly
    /// the instructions the source denotes; on failure the error names
    /// the offending line and its 1-based number.
    pub fn append_instructions(&mut self, instructions: &str) -> (r: Result<(), CompileError>)
        requires
            old(self).wf(),
            instructions.spec_bytes().len() < usize::MAX,
        ensures
            final(self).wf(),
            match spec_append(old(self)@, instructions.spec_bytes()) {
                Ok(pm) => r == Ok::<(), CompileError>(()) && final(self)@ == pm,
                Err(em) => r matches Err(ce) && ce@ == em,
            },
    {
        let b = instructions.as_bytes();
        let b_len: usize = b.len();
        let mut rest: &[u8] = b;
        let mut line_no: usize = 1;
        loop
            invariant
                self.wf(),
                b@.len() == b_len,
                b_len < usize::MAX,
                line_no >= 1,
                line_no - 1 + rest@.len() <= b@.len(),
                spec_lines(old(self)@, b@, 1) == spec_lines(self@, rest@, line_no as int),
            decreases rest@.len(),
        {
            if rest.len() == 0 {
                break ;
            }
            let line_end: usize;
            let has_nl: bool;
            match find_byte_in(rest, 0, 10) {
                None => {
                    line_end = rest.len();
                    has_nl = false;
                },
                Some(i) => {
                    proof {
                        lemma_find_byte(rest@, 0, 10);
                    }
                    line_end = i;
                    has_nl = true;
                },
            }
            let line = vstd::slice::slice_subrange(rest, 0, line_end);
            proof {
                if !has_nl {
                    assert(rest@.subrange(0, rest@.len() as int) =~= rest@);
                }
            }
            match self.process_line(line, line_no) {
                Err(ce) => {
                    return Err(ce);
                },
                Ok(()) => {},
            }
            if has_nl {
                rest = vstd::slice::slice_subrange(rest, line_end + 1, rest.len());
                line_no = line_no + 1;
            } else {
                rest = vstd::slice::slice_subrange(rest, line_end, line_end);
                proof {
                    assert(rest@ =~= Seq::<u8>::empty());
                }
            }
        }
        self.resolve_gotos()
    }

    /// The fix-up pass: patches every pending forward jump with the final
    /// index of its label.
    fn resolve_gotos(&mut self) -> (r: Result<(), CompileError>)
        requires
            old(self).wf(),
        ensures
            final(self).wf(),
            match spec_resolve(old(self)@, 0) {
                Ok(pm) => r == Ok::<(), CompileError>(()) && final(self)@ == pm,
                Err(em) => r matches Err(ce) && ce@ == em,
            },
    {
        let mut k: usize = 0;
        while k < self.unresolved_jumps.len()
            invariant
                self.wf(),
                k <= self.unresolved_jumps@.len(),
                spec_resolve(old(self)@, 0) == spec_resolve(self@, k as int),
            decreases self.unresolved_jumps@.len() - k,
        {
            let target = self.jumps.get(self.unresolved_jumps[k].to.as_slice());
            match target {
                None => {
                    return Err(
                        CompileError(
                            ProgramError::LabelNotFound,
                            vstd::slice::slice_to_vec(self.unresolved_jumps[k].line.as_slice()),
                            self.unresolved_jumps[k].line_no,
                        ),
                    );
                },
                Some(tv) => {
                    let from = self.unresolved_jumps[k].from;
                    let op = self.instructions[from].op;
                    self.set_inst(from, op, tv);
                },
            }
            k = k + 1;
        }
        self.unresolved_jumps.clear();
        proof {
            assert(self@.unresolved =~= Seq::<JumpModel>::empty());
            assert(self@ =~= match spec_resolve(old(self)@, 0) {
                Ok(pm) => pm,
                Err(_) => self@,
            });
        }
        Ok(())
    }

    /// The textual rendering of the program: one line per instruction,
    /// `NAME` then the operand as two hex digits.
    pub fn render(&self) -> (r: Vec<u8>)
        ensures
            r@ == spec_render(self@.instructions),
    {
        let mut out: Vec<u8> = Vec::new();
        let mut i: usize = 0;
        while i < self.instructions.len()
            invariant
                i <= self@.instructions.len(),
                out@ == spec_render(self@.instructions.subrange(0, i as int)),
            decreases self@.instructions.len() - i,
        {
            let inst = self.instructions[i];
            let ghost pre = out@;
            push_op_name(&mut out, inst.op);
            out.push(32);
            out.push(hex_digit_b(inst.val / 16));
            out.push(hex_digit_b(inst.val % 16));
            out.push(10);
            proof {
                assert(out@ =~= pre + render_inst(inst));
                assert(self@.instructions.subrange(0, i + 1) =~= self@.instructions.subrange(
                    0,
                    i as int,
                ).push(inst));
                lemma_render_push(self@.instructions.subrange(0, i as int), inst);
            }
            i = i + 1;
        }
        proof {
            assert(self@.instructions.subrange(0, self@.instructions.len() as int)
                =~= self@.instructions);
        }
        out
    }
}

} // verus!
