//! The instruction mapper: turns each rendered line into an
//! `(operand token, target opcode token)` pair.

use vstd::prelude::*;
use vstd::string::StringSliceAdditionalSpecFns;

use crate::compiler::image::AsmOutput;
use crate::compiler::{Compiler, CompilerErrModel, CompilerError};
use crate::lang::text::{
    eq_bytes, find_byte, find_byte_in, find_non_ws_in, find_ws_in, first_token, lemma_find_byte,
    lemma_find_non_ws, lemma_find_ws, second_token, trim, trim_slice,
};

verus! {

/// First index `i >= from` whose name equals `op`, if any.
pub open spec fn find_name(names: Seq<Seq<u8>>, op: Seq<u8>, from: int) -> Option<int>
    decreases names.len() - from when 0 <= from
{
    if from < 0 || from >= names.len() {
        None
    } else if names[from] == op {
        Some(from)
    } else {
        find_name(names, op, from + 1)
    }
}

/// What a name search tells about the table.
pub proof fn lemma_find_name(names: Seq<Seq<u8>>, op: Seq<u8>, from: int)
    requires
        0 <= from,
    ensures
        match find_name(names, op, from) {
            Some(i) => from <= i < names.len() && names[i] == op && forall|k: int|
                from <= k < i ==> #[trigger] names[k] != op,
            None => forall|k: int| from <= k < names.len() ==> #[trigger] names[k] != op,
        },
    decreases names.len() - from,
{
    if from < names.len() && names[from] != op {
        lemma_find_name(names, op, from + 1);
    }
}

/// Looking one opcode name up: the target token at the first matching
/// index, or an unknown-instruction error naming the opcode.
pub open spec fn spec_map_op(names: Seq<Seq<u8>>, codes: Seq<Seq<u8>>, op: Seq<u8>) -> Result<
    Seq<u8>,
    CompilerErrModel,
> {
    match find_name(names, op, 0) {
        Some(i) => Ok(codes[i]),
        None => Err(CompilerErrModel::UnknownInst(op)),
    }
}

/// The two-character operand token a line carries; a line with no second
/// token means a zero operand.
pub open spec fn zero_token() -> Seq<u8> {
    seq![48u8, 48u8]
}

/// One rendered line: its opcode name is mapped through the tables and
/// its operand token must be exactly two characters; the pair comes out
/// operand first.
pub open spec fn spec_compile_line(
    names: Seq<Seq<u8>>,
    codes: Seq<Seq<u8>>,
    l: Seq<u8>,
) -> Result<(Seq<u8>, Seq<u8>), CompilerErrModel> {
    let t = trim(l);
    if t.len() == 0 {
        Err(CompilerErrModel::NewLine)
    } else {
        match spec_map_op(names, codes, first_token(t)) {
            Err(e) => Err(e),
            Ok(code) => {
                let a = match second_token(t) {
                    None => zero_token(),
                    Some(x) => x,
                };
                if a.len() != 2 {
                    Err(CompilerErrModel::ShortHex(l))
                } else {
                    Ok((a, code))
                }
            },
        }
    }
}

/// A whole rendered program, line by line; each line appends its operand
/// token and then its opcode token to `acc`.
pub open spec fn spec_compile(
    names: Seq<Seq<u8>>,
    codes: Seq<Seq<u8>>,
    src: Seq<u8>,
    acc: Seq<Seq<u8>>,
) -> Result<Seq<Seq<u8>>, CompilerErrModel>
    decreases src.len(),
{
    if src.len() == 0 {
        Ok(acc)
    } else {
        match find_byte(src, 0, 10) {
            None => match spec_compile_line(names, codes, src) {
                Ok(p) => Ok(acc.push(p.0).push(p.1)),
                Err(e) => Err(e),
            },
            Some(i) => if 0 <= i < src.len() {
                match spec_compile_line(names, codes, src.subrange(0, i)) {
                    Ok(p) => spec_compile(
                        names,
                        codes,
                        src.subrange(i + 1, src.len() as int),
                        acc.push(p.0).push(p.1),
                    ),
                    Err(e) => Err(e),
                }
            } else {
                Ok(acc)
            },
        }
    }
}

impl<'a> Compiler<'a> {
    /// Maps one opcode display name to its target token.
    fn map_op(&self, op: &[u8]) -> (r: Result<&'a str, CompilerError>)
        requires
            self.wf(),
        ensures
            match spec_map_op(self.names(), self.codes(), op@) {
                Ok(c) => r matches Ok(s) && s.spec_bytes() == c,
                Err(em) => r matches Err(e) && e@ == em,
            },
    {
        let mut i: usize = 0;
        while i < self.inst_set.len()
            invariant
                i <= self.names().len(),
                find_name(self.names(), op@, 0) == find_name(self.names(), op@, i as int),
            decreases self.names().len() - i,
        {
            let name: &str = *vstd::slice::slice_index_get(self.inst_set, i);
            if eq_bytes(name.as_bytes(), op) {
                return Ok(*vstd::slice::slice_index_get(self.op_codes, i));
            }
            i = i + 1;
        }
        Err(CompilerError::UnknownInst(vstd::slice::slice_to_vec(op)))
    }

    /// Maps a whole rendered program onto target tokens: for each line an
    /// operand token then an opcode token, in program order.
    pub fn compile(&self, instructions: &str) -> (r: Result<AsmOutput, CompilerError>)
        requires
            self.wf(),
        ensures
            match spec_compile(
                self.names(),
                self.codes(),
                instructions.spec_bytes(),
                Seq::empty(),
            ) {
                Ok(toks) => r matches Ok(a) && a@ == toks,
                Err(em) => r matches Err(e) && e@ == em,
            },
    {
        let b = instructions.as_bytes();
        let mut rest: &[u8] = b;
        let mut program: Vec<Vec<u8>> = Vec::new();
        proof {
            assert(program@.map_values(|v: Vec<u8>| v@) =~= Seq::<Seq<u8>>::empty());
        }
        loop
            invariant
                spec_compile(self.names(), self.codes(), b@, Seq::empty()) == spec_compile(
                    self.names(),
                    self.codes(),
                    rest@,
                    program@.map_values(|v: Vec<u8>| v@),
                ),
            decreases rest@.len(),
        {
            if rest.len() == 0 {
                break ;
            }
            let line_end: usize;
            let has_nl: bool;
            match find_byte_in(rest, 0, 10) {
                None => {
                    line_end = rest.len();
                    has_nl = false;
                },
                Some(i) => {
                    proof {
                        lemma_find_byte(rest@, 0, 10);
                    }
                    line_end = i;
                    has_nl = true;
                },
            }
            let line = vstd::slice::slice_subrange(rest, 0, line_end);
            proof {
                if !has_nl {
                    assert(rest@.subrange(0, rest@.len() as int) =~= rest@);
                }
            }
            let t = trim_slice(line);
            if t.len() == 0 {
                return Err(CompilerError::NewLine);
            }
            let e1 = match find_ws_in(t, 0) {
                None => t.len(),
                Some(i) => i,
            };
            proof {
                lemma_find_ws(t@, 0);
                assert(t@.subrange(0, t@.len() as int) =~= t@);
            }
            let tok1 = vstd::slice::slice_subrange(t, 0, e1);
            let code: &str;
            match self.map_op(tok1) {
                Err(e) => {
                    return Err(e);
                },
                Ok(c) => {
                    code = c;
                },
            }
            let s2 = match find_non_ws_in(t, e1) {
                None => t.len(),
                Some(i) => i,
            };
            proof {
                lemma_find_non_ws(t@, e1 as int);
            }
            let a: Vec<u8>;
            if s2 < t.len() {
                let e2 = match find_ws_in(t, s2) {
                    None => t.len(),
                    Some(i) => i,
                };
                proof {
                    lemma_find_ws(t@, s2 as int);
                }
                a = vstd::slice::slice_to_vec(vstd::slice::slice_subrange(t, s2, e2));
            } else {
                let mut z: Vec<u8> = Vec::new();
                z.push(48);
                z.push(48);
                proof {
                    assert(z@ =~= zero_token());
                }
                a = z;
            }
            if a.len() != 2 {
                return Err(CompilerError::ShortHex(vstd::slice::slice_to_vec(line)));
            }
            let ghost pre = program@.map_values(|v: Vec<u8>| v@);
            let ghost atok = a@;
            program.push(a);
            program.push(vstd::slice::slice_to_vec(code.as_bytes()));
            proof {
                assert(program@.map_values(|v: Vec<u8>| v@) =~= pre.push(atok).push(
                    code.spec_bytes(),
                ));
            }
            if has_nl {
                rest = vstd::slice::slice_subrange(rest, line_end + 1, rest.len());
            } else {
                rest = vstd::slice::slice_subrange(rest, line_end, line_end);
                proof {
                    assert(rest@ =~= Seq::<u8>::empty());
                }
            }
        }
        Ok(AsmOutput(program))
    }
}

} // verus!
