//! The library's stated laws: instruction counting for expressions, the
//! render/re-map round trip, order-independence of label resolution, and
//! determinism of the whole pipeline.

use vstd::prelude::*;

use crate::compiler::CompilerErrModel;
use crate::compiler::compile::{find_name, lemma_find_name, spec_compile, spec_compile_line};
use crate::lang::compile::{hex_byte, hex_digit, render_inst, spec_render, spec_append};
use crate::lang::inst::{
    goto_cond, goto_label, spec_add_goto, spec_expr_tail, spec_handle_expr, spec_handle_op,
    spec_load,
};
use crate::lang::text::{
    find_byte, find_non_ws, find_op, find_ws, first_token, is_space, lemma_find_byte,
    lemma_find_non_ws, lemma_find_ws, reg_name, second_token, trim, trim_end, trim_start,
};
use crate::lang::{Inst, OpCode, ProgramModel, init_model, op_name};

verus! {

/// How many instructions loading one term emits: none for the reserved
/// accumulator name, one otherwise.
pub open spec fn load_count(seg: Seq<u8>) -> int {
    if trim(seg) == reg_name() {
        0
    } else {
        1
    }
}

/// How many terms follow the operator at `op_i`; each emits exactly one
/// instruction.
pub open spec fn tail_count(expr: Seq<u8>, op_i: int) -> int
    decreases expr.len() - op_i when 0 <= op_i < expr.len()
{
    match find_op(expr, op_i + 1) {
        None => 1,
        Some(j) => if op_i + 1 < j < expr.len() {
            1 + tail_count(expr, j)
        } else {
            1
        },
    }
}

/// How many instructions an accepted expression emits: one per term,
/// except that a leading accumulator term emits none.
pub open spec fn expr_inst_count(expr: Seq<u8>) -> int {
    match find_op(expr, 0) {
        None => load_count(expr),
        Some(i) => if i == 0 {
            match find_op(expr, 1) {
                None => load_count(expr),
                Some(i2) => load_count(expr.subrange(0, i2)) + tail_count(expr, i2),
            }
        } else {
            load_count(expr.subrange(0, i)) + tail_count(expr, i)
        },
    }
}

/// Prefix preservation composes.
proof fn lemma_prefix_trans(a: Seq<Inst>, b: Seq<Inst>, c: Seq<Inst>)
    requires
        a.len() <= b.len() <= c.len(),
        b.subrange(0, a.len() as int) == a,
        c.subrange(0, b.len() as int) == b,
    ensures
        c.subrange(0, a.len() as int) == a,
{
    assert(c.subrange(0, a.len() as int) =~= a) by {
        assert forall|q: int| 0 <= q < a.len() implies c[q] == a[q] by {
            assert(b[q] == c.subrange(0, b.len() as int)[q]);
            assert(a[q] == b.subrange(0, a.len() as int)[q]);
        }
    }
}

/// Loading one term touches nothing but the instruction sequence, and
/// appends `load_count` instructions to it.
proof fn lemma_load_effects(m: ProgramModel, seg: Seq<u8>, m2: ProgramModel)
    requires
        spec_load(m, seg) == Ok::<ProgramModel, crate::lang::ProgramError>(m2),
    ensures
        m2.stack == m.stack,
        m2.stack_i == m.stack_i,
        m2.jumps == m.jumps,
        m2.unresolved == m.unresolved,
        m2.instructions.len() == m.instructions.len() + load_count(seg),
        m2.instructions.subrange(0, m.instructions.len() as int) == m.instructions,
{
    let t = trim(seg);
    if crate::lang::text::parse_i8(t) is Some {
        assert(t != reg_name()) by {
            assert(reg_name()[0] == 114 && !crate::lang::text::is_digit(reg_name()[0]));
        }
        assert(m2.instructions.subrange(0, m.instructions.len() as int) =~= m.instructions);
    } else if t == reg_name() {
        assert(m2.instructions.subrange(0, m.instructions.len() as int) =~= m.instructions);
    } else {
        assert(m2.instructions.subrange(0, m.instructions.len() as int) =~= m.instructions);
    }
}

/// Folding one operator and term touches nothing but the instruction
/// sequence, and appends exactly one instruction.
proof fn lemma_op_effects(m: ProgramModel, op: u8, seg: Seq<u8>, m2: ProgramModel)
    requires
        spec_handle_op(m, op, seg) == Ok::<ProgramModel, crate::lang::ProgramError>(m2),
    ensures
        m2.stack == m.stack,
        m2.stack_i == m.stack_i,
        m2.jumps == m.jumps,
        m2.unresolved == m.unresolved,
        m2.instructions.len() == m.instructions.len() + 1,
        m2.instructions.subrange(0, m.instructions.len() as int) == m.instructions,
{
    assert(m2.instructions.subrange(0, m.instructions.len() as int) =~= m.instructions);
}

/// The tail of an expression appends one instruction per remaining term.
proof fn lemma_tail_effects(m: ProgramModel, expr: Seq<u8>, op_i: int, m2: ProgramModel)
    requires
        0 <= op_i < expr.len(),
        spec_expr_tail(m, expr, op_i) == Ok::<ProgramModel, crate::lang::ProgramError>(m2),
    ensures
        m2.stack == m.stack,
        m2.stack_i == m.stack_i,
        m2.jumps == m.jumps,
        m2.unresolved == m.unresolved,
        tail_count(expr, op_i) >= 1,
        m2.instructions.len() == m.instructions.len() + tail_count(expr, op_i),
        m2.instructions.subrange(0, m.instructions.len() as int) == m.instructions,
    decreases expr.len() - op_i,
{
    match find_op(expr, op_i + 1) {
        None => {
            lemma_op_effects(m, expr[op_i], expr.subrange(op_i + 1, expr.len() as int), m2);
        },
        Some(j) => {
            if op_i + 1 < j < expr.len() {
                let mid = spec_handle_op(m, expr[op_i], expr.subrange(op_i + 1, j));
                let mm = mid->Ok_0;
                lemma_op_effects(m, expr[op_i], expr.subrange(op_i + 1, j), mm);
                lemma_tail_effects(mm, expr, j, m2);
                lemma_prefix_trans(m.instructions, mm.instructions, m2.instructions);
            } else {
                lemma_op_effects(m, expr[op_i], expr.subrange(op_i + 1, j), m2);
            }
        },
    }
}

/// Every accepted expression emits exactly one instruction per term
/// (none for a leading accumulator term), appended after the existing
/// instructions, and touches no other part of the program.
pub proof fn lemma_expr_instruction_count(m: ProgramModel, expr: Seq<u8>, m2: ProgramModel)
    requires
        spec_handle_expr(m, expr) == Ok::<ProgramModel, crate::lang::ProgramError>(m2),
    ensures
        m2.stack == m.stack,
        m2.stack_i == m.stack_i,
        m2.jumps == m.jumps,
        m2.unresolved == m.unresolved,
        m2.instructions.len() == m.instructions.len() + expr_inst_count(expr),
        m2.instructions.subrange(0, m.instructions.len() as int) == m.instructions,
{
    match find_op(expr, 0) {
        None => {
            lemma_load_effects(m, expr, m2);
        },
        Some(i) => {
            crate::lang::text::lemma_find_op(expr, 0);
            if i == 0 {
                match find_op(expr, 1) {
                    None => {
                        lemma_load_effects(m, expr, m2);
                    },
                    Some(i2) => {
                        crate::lang::text::lemma_find_op(expr, 1);
                        let mid = spec_load(m, expr.subrange(0, i2));
                        let mm = mid->Ok_0;
                        lemma_load_effects(m, expr.subrange(0, i2), mm);
                        lemma_tail_effects(mm, expr, i2, m2);
                        lemma_prefix_trans(m.instructions, mm.instructions, m2.instructions);
                    },
                }
            } else {
                let mid = spec_load(m, expr.subrange(0, i));
                let mm = mid->Ok_0;
                lemma_load_effects(m, expr.subrange(0, i), mm);
                lemma_tail_effects(mm, expr, i, m2);
                lemma_prefix_trans(m.instructions, mm.instructions, m2.instructions);
            }
        },
    }
}

/// A goto whose label is already declared takes the label's index at
/// once: the emitted jump's operand is the label table's value, and no
/// patch site is queued.  Together with `lemma_resolve_patches` this is
/// order-independence of label resolution: a forward reference is later
/// patched to the same table value.
pub proof fn lemma_goto_backward(
    m: ProgramModel,
    arg: Seq<u8>,
    line: Seq<u8>,
    line_no: int,
    mg: ProgramModel,
)
    requires
        spec_add_goto(m, arg, line, line_no) == Ok::<ProgramModel, crate::lang::ProgramError>(mg),
        m.jumps.contains_key(goto_label(trim(arg))),
    ensures
        mg.instructions.len() > 0,
        mg.instructions.last().val == m.jumps[goto_label(trim(arg))],
        mg.unresolved == m.unresolved,
{
    let t = trim(arg);
    let name = goto_label(t);
    match goto_cond(t) {
        Some(c) => {
            let m1 = spec_handle_expr(m, c)->Ok_0;
            lemma_expr_instruction_count(m, c, m1);
        },
        None => {},
    }
}

/// After a successful fix-up pass every pending jump site holds exactly
/// the final index of its label, with its opcode kept; instructions that
/// were not pending sites are untouched, and no jump is pending any more.
pub proof fn lemma_resolve_patches(m: ProgramModel, mr: ProgramModel, k: int)
    requires
        0 <= k <= m.unresolved.len(),
        m.wf(),
        spec_resolve_ok(m, k, mr),
        forall|p: int, q: int|
            k <= p < q < m.unresolved.len() ==> (#[trigger] m.unresolved[p]).from != (
            #[trigger] m.unresolved[q]).from,
    ensures
        mr.stack == m.stack,
        mr.stack_i == m.stack_i,
        mr.jumps == m.jumps,
        mr.unresolved.len() == 0,
        mr.instructions.len() == m.instructions.len(),
        forall|p: int|
            k <= p < m.unresolved.len() ==> {
                let j = #[trigger] m.unresolved[p];
                mr.instructions[j.from].val == m.jumps[j.to] && mr.instructions[j.from].op
                    == m.instructions[j.from].op
            },
        forall|q: int|
            0 <= q < m.instructions.len() && (forall|p: int|
                k <= p < m.unresolved.len() ==> (#[trigger] m.unresolved[p]).from != q)
                ==> #[trigger] mr.instructions[q] == m.instructions[q],
    decreases m.unresolved.len() - k,
{
    if k >= m.unresolved.len() {
    } else {
        let j = m.unresolved[k];
        let m2 = ProgramModel {
            instructions: m.instructions.update(
                j.from,
                Inst { op: m.instructions[j.from].op, val: m.jumps[j.to] },
            ),
            ..m
        };
        lemma_resolve_patches(m2, mr, k + 1);
    }
}

/// The fix-up pass succeeded with result `mr`.
pub open spec fn spec_resolve_ok(m: ProgramModel, k: int, mr: ProgramModel) -> bool {
    crate::lang::compile::spec_resolve(m, k) == Ok::<ProgramModel, crate::lang::CompileErrModel>(
        mr,
    )
}

/// The display names of opcodes are three capital letters.
proof fn lemma_op_name_bytes(op: OpCode)
    ensures
        op_name(op).len() == 3,
        forall|k: int| 0 <= k < 3 ==> 65 <= #[trigger] op_name(op)[k] <= 90,
{
    match op {
        OpCode::LDC => {
            assert(op_name(op)[0] == 76 && op_name(op)[1] == 68 && op_name(op)[2] == 67);
        },
        OpCode::LDM => {
            assert(op_name(op)[0] == 76 && op_name(op)[1] == 68 && op_name(op)[2] == 77);
        },
        OpCode::ADC => {
            assert(op_name(op)[0] == 65 && op_name(op)[1] == 68 && op_name(op)[2] == 67);
        },
        OpCode::ADM => {
            assert(op_name(op)[0] == 65 && op_name(op)[1] == 68 && op_name(op)[2] == 77);
        },
        OpCode::STR => {
            assert(op_name(op)[0] == 83 && op_name(op)[1] == 84 && op_name(op)[2] == 82);
        },
        OpCode::CLR => {
            assert(op_name(op)[0] == 67 && op_name(op)[1] == 76 && op_name(op)[2] == 82);
        },
        OpCode::BRA => {
            assert(op_name(op)[0] == 66 && op_name(op)[1] == 82 && op_name(op)[2] == 65);
        },
        OpCode::BRQ => {
            assert(op_name(op)[0] == 66 && op_name(op)[1] == 82 && op_name(op)[2] == 81);
        },
    }
}

/// Hex digits are digits or lower-case letters.
proof fn lemma_hex_bytes(v: u8)
    ensures
        hex_byte(v).len() == 2,
        forall|k: int| 0 <= k < 2 ==> 48 <= #[trigger] hex_byte(v)[k] <= 102,
{
    assert(0 <= v as int / 16 < 16);
    assert(0 <= v as int % 16 < 16);
    assert(hex_byte(v)[0] == hex_digit(v as int / 16));
    assert(hex_byte(v)[1] == hex_digit(v as int % 16));
}

/// The shape of one rendered line: seven bytes, the newline exactly at
/// the end, and the line before it trims to itself and tokenizes into the
/// opcode name and the two hex digits.
proof fn lemma_render_line_facts(i: Inst)
    ensures
        render_inst(i).len() == 7,
        render_inst(i)[6] == 10,
        forall|k: int| 0 <= k < 6 ==> #[trigger] render_inst(i)[k] != 10,
        trim(render_inst(i).subrange(0, 6)) == render_inst(i).subrange(0, 6),
        first_token(render_inst(i).subrange(0, 6)) == op_name(i.op),
        second_token(render_inst(i).subrange(0, 6)) == Some(hex_byte(i.val)),
{
    lemma_op_name_bytes(i.op);
    lemma_hex_bytes(i.val);
    let r = render_inst(i);
    let l = r.subrange(0, 6);
    assert(r[0] == op_name(i.op)[0] && r[1] == op_name(i.op)[1] && r[2] == op_name(i.op)[2]);
    assert(r[3] == 32);
    assert(r[4] == hex_byte(i.val)[0] && r[5] == hex_byte(i.val)[1]);
    assert(r[6] == 10);
    assert(l.len() == 6);
    assert(forall|k: int| 0 <= k < 6 ==> #[trigger] l[k] == r[k]);
    assert(!is_space(l[0]) && !is_space(l[5]));
    assert(trim_start(l) == l);
    assert(trim_end(l) == l);
    lemma_find_ws(l, 0);
    assert(is_space(l[3]));
    assert(find_ws(l, 0) == Some(3int));
    assert(first_token(l) =~= op_name(i.op));
    lemma_find_non_ws(l, 3);
    assert(!is_space(l[4]));
    assert(find_non_ws(l, 3) == Some(4int));
    lemma_find_ws(l, 4);
    assert(find_ws(l, 4) == None::<int>);
    assert(second_token(l) matches Some(a) && a =~= hex_byte(i.val));
}

/// The target token the mapper gives an opcode's display name.
pub open spec fn mapped_code(names: Seq<Seq<u8>>, codes: Seq<Seq<u8>>, op: OpCode) -> Seq<u8> {
    match find_name(names, op_name(op), 0) {
        Some(i) => codes[i],
        None => Seq::empty(),
    }
}

/// The token stream the mapper owes a rendered instruction sequence: for
/// each instruction its operand as two hex digits, then the target token
/// of its opcode name.
pub open spec fn mapped_tokens(
    names: Seq<Seq<u8>>,
    codes: Seq<Seq<u8>>,
    insts: Seq<Inst>,
) -> Seq<Seq<u8>>
    decreases insts.len(),
{
    if insts.len() == 0 {
        Seq::empty()
    } else {
        seq![hex_byte(insts[0].val), mapped_code(names, codes, insts[0].op)] + mapped_tokens(
            names,
            codes,
            insts.drop_first(),
        )
    }
}

/// Round trip: mapping the textual rendering of any instruction sequence
/// through the instruction mapper succeeds and reproduces the sequence
/// token for token — operand first, then the target token of the opcode
/// name — whenever every opcode name of the sequence is in the table.
pub proof fn lemma_render_map_round_trip(
    names: Seq<Seq<u8>>,
    codes: Seq<Seq<u8>>,
    insts: Seq<Inst>,
    acc: Seq<Seq<u8>>,
)
    requires
        names.len() == codes.len(),
        forall|p: int|
            0 <= p < insts.len() ==> find_name(names, op_name((#[trigger] insts[p]).op), 0)
                is Some,
    ensures
        spec_compile(names, codes, spec_render(insts), acc) == Ok::<Seq<Seq<u8>>, CompilerErrModel>(
            acc + mapped_tokens(names, codes, insts),
        ),
    decreases insts.len(),
{
    let src = spec_render(insts);
    if insts.len() == 0 {
        assert(acc + mapped_tokens(names, codes, insts) =~= acc);
    } else {
        let i0 = insts[0];
        let rest = insts.drop_first();
        lemma_render_line_facts(i0);
        assert(src == render_inst(i0) + spec_render(rest));
        assert(src.len() >= 7);
        assert(src[6] == 10);
        assert(forall|k: int| 0 <= k < 6 ==> #[trigger] src[k] == render_inst(i0)[k]);
        lemma_find_byte(src, 0, 10);
        assert(find_byte(src, 0, 10) == Some(6int));
        let line = src.subrange(0, 6);
        assert(line =~= render_inst(i0).subrange(0, 6));
        assert(trim(line) == line);
        assert(find_name(names, op_name(i0.op), 0) is Some);
        let idx = find_name(names, op_name(i0.op), 0)->Some_0;
        lemma_find_name(names, op_name(i0.op), 0);
        assert(spec_compile_line(names, codes, line) == Ok::<(Seq<u8>, Seq<u8>), CompilerErrModel>(
            (hex_byte(i0.val), mapped_code(names, codes, i0.op)),
        ));
        let acc2 = acc.push(hex_byte(i0.val)).push(mapped_code(names, codes, i0.op));
        assert(src.subrange(7, src.len() as int) =~= spec_render(rest));
        assert(forall|p: int|
            0 <= p < rest.len() ==> find_name(names, op_name((#[trigger] rest[p]).op), 0)
                is Some) by {
            assert(forall|p: int| 0 <= p < rest.len() ==> #[trigger] rest[p] == insts[p + 1]);
        }
        lemma_render_map_round_trip(names, codes, rest, acc2);
        assert(acc2 + mapped_tokens(names, codes, rest) =~= acc + mapped_tokens(
            names,
            codes,
            insts,
        ));
    }
}

/// Compilation is a pure function of the source text: two runs over the
/// same source from the same fresh program agree on the program, and so
/// on its rendering and on everything the back-end builds from it.
pub proof fn lemma_compile_deterministic(
    src: Seq<u8>,
    stack_size: Option<u8>,
    m1: ProgramModel,
    m2: ProgramModel,
)
    requires
        spec_append(init_model(stack_size), src) == Ok::<ProgramModel, crate::lang::CompileErrModel>(m1),
        spec_append(init_model(stack_size), src) == Ok::<ProgramModel, crate::lang::CompileErrModel>(m2),
    ensures
        m1 == m2,
        spec_render(m1.instructions) == spec_render(m2.instructions),
{
}

} // verus!
