//! Expression evaluation and variable/label binding: the per-line actions
//! of the front-end.
//!
//! Each action is specified by a spec function from a `ProgramModel` and
//! the raw argument bytes to either the next model or the error the
//! line earns; the executable methods return exactly that.

use vstd::prelude::*;
use vstd::string::StringSliceAdditionalSpecFns;

use crate::lang::text::{
    byte_of, find_byte, find_byte_in, find_non_ws_in, find_op, find_op_in, find_ws_in,
    first_token, is_digit, is_op, is_punct, is_reg_b, is_space, is_space_b, lemma_find_byte,
    lemma_find_non_ws, lemma_find_op, lemma_find_ws, parse_i8, parse_i8_bytes, reg_name,
    second_token, trim, trim_slice,
};
use crate::lang::{
    Inst, JumpModel, OpCode, Program, ProgramError, ProgramModel, UnresolvedJump, spec_push,
};

verus! {

/// Whether a variable line declares a new variable or assigns an existing
/// one.
#[derive(Clone, Copy, Debug, PartialEq, Eq, Structural)]
pub enum VarMode {
    NewVar,
    SetVar,
}

/// Operand of a jump whose label is still unknown; patched later.
pub const UNRESOLVED_ADDR: u8 = 0;

/// Loading one term into the accumulator: a literal becomes a
/// load-constant, the reserved pseudo-name emits nothing (the value is
/// already in the accumulator), and a known variable becomes a
/// load-memory from its cell.
pub open spec fn spec_load(m: ProgramModel, name: Seq<u8>) -> Result<ProgramModel, ProgramError> {
    let t = trim(name);
    match parse_i8(t) {
        Some(n) => Ok(spec_push(m, OpCode::LDC, byte_of(n as int))),
        None => if t == reg_name() {
            Ok(m)
        } else if m.stack.contains_key(t) {
            Ok(spec_push(m, OpCode::LDM, m.stack[t]))
        } else {
            Err(ProgramError::VarUndefined)
        },
    }
}

/// Folding one operator and its right-hand term into the accumulator: a
/// literal becomes an add-constant (negated under `-`), a variable under
/// `+` becomes an add-memory, and subtracting a variable is unsupported
/// (the architecture can only add).
pub open spec fn spec_handle_op(m: ProgramModel, op: u8, operand: Seq<u8>) -> Result<
    ProgramModel,
    ProgramError,
> {
    let t = trim(operand);
    if is_op(op) {
        match parse_i8(t) {
            Some(n) => Ok(
                spec_push(
                    m,
                    OpCode::ADC,
                    byte_of(
                        if op == 43 {
                            n as int
                        } else {
                            -(n as int)
                        },
                    ),
                ),
            ),
            None => if op == 43 {
                if m.stack.contains_key(t) {
                    Ok(spec_push(m, OpCode::ADM, m.stack[t]))
                } else {
                    Err(ProgramError::VarUndefined)
                }
            } else {
                Err(ProgramError::UnsupportedOperator)
            },
        }
    } else {
        Err(ProgramError::UnsupportedOperator)
    }
}

/// The rest of an expression from the operator at `op_i` on: each
/// operator folds the term that follows it; two adjacent operators are a
/// syntax error.
pub open spec fn spec_expr_tail(m: ProgramModel, expr: Seq<u8>, op_i: int) -> Result<
    ProgramModel,
    ProgramError,
>
    decreases expr.len() - op_i when 0 <= op_i < expr.len()
{
    match find_op(expr, op_i + 1) {
        None => spec_handle_op(m, expr[op_i], expr.subrange(op_i + 1, expr.len() as int)),
        Some(j) => if j == op_i + 1 {
            Err(ProgramError::BadSyntax)
        } else if op_i + 1 < j < expr.len() {
            match spec_handle_op(m, expr[op_i], expr.subrange(op_i + 1, j)) {
                Ok(m2) => spec_expr_tail(m2, expr, j),
                Err(e) => Err(e),
            }
        } else {
            Err(ProgramError::BadSyntax)
        },
    }
}

/// A whole expression: the first term is loaded (a leading sign belongs
/// to the first term), then each operator folds the next term.  An `=`
/// anywhere in an expression is a syntax error.
pub open spec fn spec_handle_expr(m: ProgramModel, expr: Seq<u8>) -> Result<
    ProgramModel,
    ProgramError,
> {
    if find_byte(expr, 0, 61) is Some {
        Err(ProgramError::BadSyntax)
    } else {
        match find_op(expr, 0) {
            None => spec_load(m, expr),
            Some(i) => if i == 0 {
                match find_op(expr, 1) {
                    None => spec_load(m, expr),
                    Some(i2) => if i2 > 1 {
                        match spec_load(m, expr.subrange(0, i2)) {
                            Ok(m1) => spec_expr_tail(m1, expr, i2),
                            Err(e) => Err(e),
                        }
                    } else {
                        Err(ProgramError::BadSyntax)
                    },
                }
            } else {
                match spec_load(m, expr.subrange(0, i)) {
                    Ok(m1) => spec_expr_tail(m1, expr, i),
                    Err(e) => Err(e),
                }
            },
        }
    }
}

/// A variable name is embedded-whitespace-free and holds at least one
/// character that is neither whitespace, a digit, nor punctuation.
pub open spec fn valid_var_name(n: Seq<u8>) -> bool {
    (forall|i: int| 0 <= i < n.len() ==> !is_space(#[trigger] n[i])) && (exists|i: int|
        0 <= i < n.len() && !is_digit(#[trigger] n[i]) && !is_punct(n[i]))
}

/// The name part of a variable line: everything before the first `=`.
pub open spec fn var_name_seg(arg: Seq<u8>) -> Seq<u8> {
    match find_byte(arg, 0, 61) {
        None => arg,
        Some(i) => arg.subrange(0, i),
    }
}

/// The initializer of a variable line: the text between the first `=` and
/// the second, if any; text after a second `=` is ignored.
pub open spec fn var_expr_seg(arg: Seq<u8>) -> Option<Seq<u8>> {
    match find_byte(arg, 0, 61) {
        None => None,
        Some(i) => Some(
            match find_byte(arg, i + 1, 61) {
                None => arg.subrange(i + 1, arg.len() as int),
                Some(j) => arg.subrange(i + 1, j),
            },
        ),
    }
}

/// A variable line.  New mode allocates the next cell and must not see an
/// existing name; set mode reuses the cell of an existing name.  A bare
/// new variable is cleared to zero; any initializer is evaluated; either
/// way the accumulator is stored to the variable's cell.  The reserved
/// pseudo-name may only be set, which evaluates the initializer with no
/// store.
pub open spec fn spec_handle_var(m: ProgramModel, arg: Seq<u8>, mode: VarMode) -> Result<
    ProgramModel,
    ProgramError,
> {
    let name = trim(var_name_seg(arg));
    let expr = match var_expr_seg(arg) {
        None => None,
        Some(e) => Some(trim(e)),
    };
    if !valid_var_name(name) {
        Err(ProgramError::BadVarName)
    } else if name == reg_name() {
        if mode == VarMode::NewVar {
            Err(ProgramError::ReservedName)
        } else {
            match expr {
                None => Err(ProgramError::BadSyntax),
                Some(e) => spec_handle_expr(m, e),
            }
        }
    } else {
        let known = m.stack.contains_key(name);
        if known && mode == VarMode::NewVar {
            Err(ProgramError::VarAlreadyDefined)
        } else if !known && mode == VarMode::SetVar {
            Err(ProgramError::VarUndefined)
        } else {
            let id = if known {
                m.stack[name]
            } else {
                m.stack_i
            };
            let m1 = if known {
                m
            } else {
                ProgramModel {
                    stack: m.stack.insert(name, m.stack_i),
                    stack_i: byte_of(m.stack_i + 1),
                    ..m
                }
            };
            let m2r = match expr {
                Some(e) => spec_handle_expr(m1, e),
                None => if mode == VarMode::NewVar {
                    Ok(spec_push(m1, OpCode::CLR, 0))
                } else {
                    Ok(m1)
                },
            };
            match m2r {
                Ok(m2) => Ok(spec_push(m2, OpCode::STR, id)),
                Err(e) => Err(e),
            }
        }
    }
}

/// The label a goto names: the first whitespace-separated token.
pub open spec fn goto_label(t: Seq<u8>) -> Seq<u8> {
    first_token(t)
}

/// The condition expression of a goto: the second whitespace-separated
/// token, if any; text after it is ignored.
pub open spec fn goto_cond(t: Seq<u8>) -> Option<Seq<u8>> {
    second_token(t)
}

/// A goto line: without a condition an unconditional jump, with one a
/// jump-if-zero after evaluating the condition.  A known label gives the
/// operand at once; an unknown one queues a patch site and emits the
/// placeholder operand.
pub open spec fn spec_add_goto(
    m: ProgramModel,
    arg: Seq<u8>,
    line: Seq<u8>,
    line_no: int,
) -> Result<ProgramModel, ProgramError> {
    let t = trim(arg);
    if t.len() == 0 {
        Err(ProgramError::LabelNotSpecified)
    } else {
        let name = goto_label(t);
        let m1r = match goto_cond(t) {
            Some(c) => spec_handle_expr(m, c),
            None => Ok(m),
        };
        let opk = if goto_cond(t) is Some {
            OpCode::BRQ
        } else {
            OpCode::BRA
        };
        match m1r {
            Err(e) => Err(e),
            Ok(m1) => if m1.jumps.contains_key(name) {
                Ok(spec_push(m1, opk, m1.jumps[name]))
            } else {
                Ok(
                    spec_push(
                        ProgramModel {
                            unresolved: m1.unresolved.push(
                                JumpModel {
                                    from: m1.instructions.len() as int,
                                    to: name,
                                    line: line,
                                    line_no: line_no,
                                },
                            ),
                            ..m1
                        },
                        opk,
                        UNRESOLVED_ADDR,
                    ),
                )
            },
        }
    }
}

impl Program {
    /// The memory cell of a known variable.
    fn get_var_loc(&self, name: &[u8]) -> (r: Result<u8, ProgramError>)
        requires
            self.wf(),
        ensures
            r == if self@.stack.contains_key(name@) {
                Ok::<u8, ProgramError>(self@.stack[name@])
            } else {
                Err::<u8, ProgramError>(ProgramError::VarUndefined)
            },
    {
        match self.stack.get(name) {
            Some(i) => Ok(i),
            None => Err(ProgramError::VarUndefined),
        }
    }

    /// Loads one term into the accumulator.
    fn load(&mut self, name: &[u8]) -> (r: Result<(), ProgramError>)
        requires
            old(self).wf(),
        ensures
            final(self).wf(),
            match spec_load(old(self)@, name@) {
                Ok(pm) => r == Ok::<(), ProgramError>(()) && final(self)@ == pm,
                Err(e) => r == Err::<(), ProgramError>(e) && final(self)@ == old(self)@,
            },
    {
        let t = trim_slice(name);
        match parse_i8_bytes(t) {
            Some(n) => {
                let b: u8 = if n >= 0 {
                    n as u8
                } else {
                    ((n as i16) + 256) as u8
                };
                self.push_inst(OpCode::LDC, b);
                Ok(())
            },
            None => {
                if is_reg_b(t) {
                    // the accumulator already holds its own value
                    Ok(())
                } else {
                    match self.get_var_loc(t) {
                        Ok(addr) => {
                            self.push_inst(OpCode::LDM, addr);
                            Ok(())
                        },
                        Err(e) => Err(e),
                    }
                }
            },
        }
    }

    /// Folds one operator and its right-hand term into the accumulator.
    fn handle_op(&mut self, op: u8, operand: &[u8]) -> (r: Result<(), ProgramError>)
        requires
            old(self).wf(),
        ensures
            final(self).wf(),
            match spec_handle_op(old(self)@, op, operand@) {
                Ok(pm) => r == Ok::<(), ProgramError>(()) && final(self)@ == pm,
                Err(e) => r == Err::<(), ProgramError>(e) && final(self)@ == old(self)@,
            },
    {
        let t = trim_slice(operand);
        if op == 43 || op == 45 {
            match parse_i8_bytes(t) {
                Some(n) => {
                    let v: i16 = if op == 43 {
                        n as i16
                    } else {
                        -(n as i16)
                    };
                    let b: u8 = if v >= 0 {
                        v as u8
                    } else {
                        (v + 256) as u8
                    };
                    self.push_inst(OpCode::ADC, b);
                    Ok(())
                },
                None => {
                    if op == 43 {
                        match self.get_var_loc(t) {
                            Ok(addr) => {
                                self.push_inst(OpCode::ADM, addr);
                                Ok(())
                            },
                            Err(e) => Err(e),
                        }
                    } else {
                        // subtracting a variable: the machine can only add
                        Err(ProgramError::UnsupportedOperator)
                    }
                },
            }
        } else {
            Err(ProgramError::UnsupportedOperator)
        }
    }

    /// Evaluates an expression, leaving its value in the accumulator.
    pub fn handle_expr(&mut self, expr: &str) -> (r: Result<(), ProgramError>)
        requires
            old(self).wf(),
        ensures
            final(self).wf(),
            match spec_handle_expr(old(self)@, expr.spec_bytes()) {
                Ok(pm) => r == Ok::<(), ProgramError>(()) && final(self)@ == pm,
                Err(e) => r == Err::<(), ProgramError>(e),
            },
    {
        let b = expr.as_bytes();
        self.handle_expr_b(b)
    }

    pub(crate) fn handle_expr_b(&mut self, expr: &[u8]) -> (r: Result<(), ProgramError>)
        requires
            old(self).wf(),
        ensures
            final(self).wf(),
            match spec_handle_expr(old(self)@, expr@) {
                Ok(pm) => r == Ok::<(), ProgramError>(()) && final(self)@ == pm,
                Err(e) => r == Err::<(), ProgramError>(e),
            },
    {
        if find_byte_in(expr, 0, 61).is_some() {
            return Err(ProgramError::BadSyntax);
        }
        let mut op_i: usize;
        match find_op_in(expr, 0) {
            None => {
                return self.load(expr);
            },
            Some(i) => {
                proof {
                    lemma_find_op(expr@, 0);
                }
                if i == 0 {
                    match find_op_in(expr, 1) {
                        None => {
                            return self.load(expr);
                        },
                        Some(i2) => {
                            if i2 <= 1 {
                                return Err(ProgramError::BadSyntax);
                            }
                            proof {
                                lemma_find_op(expr@, 1);
                            }
                            let seg = vstd::slice::slice_subrange(expr, 0, i2);
                            match self.load(seg) {
                                Err(e) => {
                                    return Err(e);
                                },
                                Ok(()) => {},
                            }
                            op_i = i2;
                        },
                    }
                } else {
                    let seg = vstd::slice::slice_subrange(expr, 0, i);
                    match self.load(seg) {
                        Err(e) => {
                            return Err(e);
                        },
                        Ok(()) => {},
                    }
                    op_i = i;
                }
            },
        }
        let n: usize = expr.len();
        loop
            invariant
                self.wf(),
                n == expr@.len(),
                0 <= op_i < expr@.len(),
                is_op(expr@[op_i as int]),
                spec_handle_expr(old(self)@, expr@) == spec_expr_tail(self@, expr@, op_i as int),
            decreases expr@.len() - op_i,
        {
            match find_op_in(expr, op_i + 1) {
                None => {
                    let seg = vstd::slice::slice_subrange(expr, op_i + 1, expr.len());
                    let opb = *vstd::slice::slice_index_get(expr, op_i);
                    return self.handle_op(opb, seg);
                },
                Some(j) => {
                    proof {
                        lemma_find_op(expr@, op_i + 1);
                    }
                    if j == op_i + 1 {
                        return Err(ProgramError::BadSyntax);
                    }
                    let seg = vstd::slice::slice_subrange(expr, op_i + 1, j);
                    let opb = *vstd::slice::slice_index_get(expr, op_i);
                    match self.handle_op(opb, seg) {
                        Err(e) => {
                            return Err(e);
                        },
                        Ok(()) => {},
                    }
                    op_i = j;
                },
            }
        }
    }

    /// Processes a variable line, in new or set mode.
    pub fn handle_var(&mut self, arg_str: &str, var_mode: VarMode) -> (r: Result<
        (),
        ProgramError,
    >)
        requires
            old(self).wf(),
        ensures
            final(self).wf(),
            match spec_handle_var(old(self)@, arg_str.spec_bytes(), var_mode) {
                Ok(pm) => r == Ok::<(), ProgramError>(()) && final(self)@ == pm,
                Err(e) => r == Err::<(), ProgramError>(e),
            },
    {
        let b = arg_str.as_bytes();
        self.handle_var_b(b, var_mode)
    }

    pub(crate) fn handle_var_b(&mut self, arg: &[u8], var_mode: VarMode) -> (r: Result<(), ProgramError>)
        requires
            old(self).wf(),
        ensures
            final(self).wf(),
            match spec_handle_var(old(self)@, arg@, var_mode) {
                Ok(pm) => r == Ok::<(), ProgramError>(()) && final(self)@ == pm,
                Err(e) => r == Err::<(), ProgramError>(e),
            },
    {
        // fixes the argument's length as a machine word for the index arithmetic below
        let arg_len: usize = arg.len();
        let name_raw: &[u8];
        let expr_seg: Option<&[u8]>;
        match find_byte_in(arg, 0, 61) {
            None => {
                name_raw = arg;
                expr_seg = None;
            },
            Some(i) => {
                proof {
                    lemma_find_byte(arg@, 0, 61);
                }
                name_raw = vstd::slice::slice_subrange(arg, 0, i);
                let end = match find_byte_in(arg, i + 1, 61) {
                    None => arg.len(),
                    Some(j) => j,
                };
                proof {
                    lemma_find_byte(arg@, i + 1, 61);
                }
                expr_seg = Some(vstd::slice::slice_subrange(arg, i + 1, end));
            },
        }
        let name = trim_slice(name_raw);
        let mut char_found = false;
        let mut k: usize = 0;
        while k < name.len()
            invariant
                *self == *old(self),
                k <= name@.len(),
                forall|p: int| 0 <= p < k ==> !is_space(#[trigger] name@[p]),
                char_found == exists|p: int|
                    0 <= p < k && !is_digit(#[trigger] name@[p]) && !is_punct(name@[p]),
            decreases name.len() - k,
        {
            let b = *vstd::slice::slice_index_get(name, k);
            if is_space_b(b) {
                proof {
                    assert(!valid_var_name(name@));
                }
                return Err(ProgramError::BadVarName);
            }
            if !(48 <= b && b <= 57) && !((33 <= b && b <= 47) || (58 <= b && b <= 64) || (91 <= b
                && b <= 96) || (123 <= b && b <= 126)) {
                char_found = true;
            }
            k = k + 1;
        }
        if !char_found {
            proof {
                assert(!valid_var_name(name@));
            }
            return Err(ProgramError::BadVarName);
        }
        proof {
            assert(valid_var_name(name@));
        }
        if is_reg_b(name) {
            if var_mode == VarMode::NewVar {
                return Err(ProgramError::ReservedName);
            }
            match expr_seg {
                None => {
                    return Err(ProgramError::BadSyntax);
                },
                Some(e) => {
                    let et = trim_slice(e);
                    return self.handle_expr_b(et);
                },
            }
        }
        let id: u8;
        match self.stack.get(name) {
            Some(existing) => {
                if var_mode == VarMode::NewVar {
                    return Err(ProgramError::VarAlreadyDefined);
                }
                id = existing;
            },
            None => {
                if var_mode == VarMode::SetVar {
                    return Err(ProgramError::VarUndefined);
                }
                id = self.stack_i;
                let owned = vstd::slice::slice_to_vec(name);
                self.stack.set(owned, id);
                // the allocation cursor wraps silently past the top of memory
                self.stack_i = if self.stack_i == 255 {
                    0
                } else {
                    self.stack_i + 1
                };
            },
        }
        match expr_seg {
            Some(e) => {
                let et = trim_slice(e);
                match self.handle_expr_b(et) {
                    Err(e) => {
                        return Err(e);
                    },
                    Ok(()) => {},
                }
            },
            None => {
                if var_mode == VarMode::NewVar {
                    self.push_inst(OpCode::CLR, 0);
                }
            },
        }
        self.push_inst(OpCode::STR, id);
        Ok(())
    }

    /// Processes a goto line; `line` and `line_no` identify the source
    /// line for diagnostics if the label never appears.
    pub fn add_goto(&mut self, label: &str, line: &str, line_no: usize) -> (r: Result<
        (),
        ProgramError,
    >)
        requires
            old(self).wf(),
        ensures
            final(self).wf(),
            match spec_add_goto(old(self)@, label.spec_bytes(), line.spec_bytes(), line_no as int) {
                Ok(pm) => r == Ok::<(), ProgramError>(()) && final(self)@ == pm,
                Err(e) => r == Err::<(), ProgramError>(e),
            },
    {
        let lb = label.as_bytes();
        let ln = line.as_bytes();
        self.add_goto_b(lb, ln, line_no)
    }

    pub(crate) fn add_goto_b(&mut self, label: &[u8], line: &[u8], line_no: usize) -> (r: Result<
        (),
        ProgramError,
    >)
        requires
            old(self).wf(),
        ensures
            final(self).wf(),
            match spec_add_goto(old(self)@, label@, line@, line_no as int) {
                Ok(pm) => r == Ok::<(), ProgramError>(()) && final(self)@ == pm,
                Err(e) => r == Err::<(), ProgramError>(e),
            },
    {
        let t = trim_slice(label);
        if t.len() == 0 {
            return Err(ProgramError::LabelNotSpecified);
        }
        let e1 = match find_ws_in(t, 0) {
            None => t.len(),
            Some(i) => i,
        };
        proof {
            lemma_find_ws(t@, 0);
            assert(t@.subrange(0, t@.len() as int) =~= t@);
        }
        let name = vstd::slice::slice_subrange(t, 0, e1);
        let s2 = match find_non_ws_in(t, e1) {
            None => t.len(),
            Some(i) => i,
        };
        proof {
            lemma_find_non_ws(t@, e1 as int);
        }
        let opk: OpCode;
        if s2 < t.len() {
            let e2 = match find_ws_in(t, s2) {
                None => t.len(),
                Some(i) => i,
            };
            proof {
                lemma_find_ws(t@, s2 as int);
            }
            let cond = vstd::slice::slice_subrange(t, s2, e2);
            match self.handle_expr_b(cond) {
                Err(e) => {
                    return Err(e);
                },
                Ok(()) => {},
            }
            opk = OpCode::BRQ;
        } else {
            opk = OpCode::BRA;
        }
        let ghost m1 = self@;
        match self.jumps.get(name) {
            Some(target) => {
                self.push_inst(opk, target);
            },
            None => {
                let from = self.instructions.len();
                self.push_inst(opk, UNRESOLVED_ADDR);
                let jump = UnresolvedJump {
                    from,
                    to: vstd::slice::slice_to_vec(name),
                    line: vstd::slice::slice_to_vec(line),
                    line_no,
                };
                self.unresolved_jumps.push(jump);
                proof {
                    let jm = JumpModel {
                        from: from as int,
                        to: name@,
                        line: line@,
                        line_no: line_no as int,
                    };
                    assert(self@.unresolved =~= m1.unresolved.push(jm));
                    assert(self@ =~= spec_push(
                        ProgramModel { unresolved: m1.unresolved.push(jm), ..m1 },
                        opk,
                        UNRESOLVED_ADDR,
                    ));
                }
            },
        }
        Ok(())
    }
}

} // verus!
