use retroc::lang::{Inst, OpCode, Program, ProgramError};

fn compile_src(src: &str) -> Result<Vec<Inst>, retroc::lang::CompileError> {
    let mut p = Program::new(None);
    p.append_instructions(src)?;
    Ok(p.get_inner().clone())
}

#[test]
fn var_assign_and_goto_to_label() {
    // `var x=5`, `x=x+3`, `goto end`, label `end` after the goto:
    // x is allocated once (cell 127), loaded with 5, incremented by 3,
    // and `end` resolves to the instruction index following its declaration.
    let insts = compile_src("var x=5\nx=x+3\ngoto end\nend ; noop\n").unwrap();
    assert_eq!(insts.len(), 7);
    assert_eq!(insts[0], Inst { op: OpCode::LDC, val: 5 });
    assert_eq!(insts[1], Inst { op: OpCode::STR, val: 127 });
    assert_eq!(insts[2], Inst { op: OpCode::LDM, val: 127 });
    assert_eq!(insts[3], Inst { op: OpCode::ADC, val: 3 });
    assert_eq!(insts[4], Inst { op: OpCode::STR, val: 127 });
    assert_eq!(insts[5], Inst { op: OpCode::BRA, val: 6 });
    assert_eq!(insts[6], Inst { op: OpCode::ADC, val: 0 });
}

#[test]
fn forward_label_is_patched() {
    // `goto loop 1` with `loop` declared later compiles; the placeholder
    // operand is patched to the label's index after the pass.
    let insts = compile_src("goto loop 1\nloop ; noop\n").unwrap();
    assert_eq!(insts.len(), 3);
    assert_eq!(insts[0], Inst { op: OpCode::LDC, val: 1 });
    assert_eq!(insts[1], Inst { op: OpCode::BRQ, val: 2 });
    assert_eq!(insts[2], Inst { op: OpCode::ADC, val: 0 });
}

#[test]
fn backward_and_forward_references_agree_with_the_table() {
    // Declaration order does not matter: each goto's operand is the
    // declared index of its label.
    let back = compile_src("l ; noop\ngoto l\n").unwrap();
    assert_eq!(back[1], Inst { op: OpCode::BRA, val: 0 });
    let fwd = compile_src("goto l\nl ; noop\n").unwrap();
    assert_eq!(fwd[0], Inst { op: OpCode::BRA, val: 1 });
}

#[test]
fn missing_label_is_an_error_citing_the_line() {
    let e = compile_src("goto missing\n").unwrap_err();
    assert_eq!(e.0, ProgramError::LabelNotFound);
    assert_eq!(e.1, b"goto missing".to_vec());
    assert_eq!(e.2, 1);
}

#[test]
fn reg_increment_emits_only_add_constant() {
    // `reg = reg + 1`: the pseudo-register suppresses the reload and no
    // store is emitted.
    let insts = compile_src("reg = reg + 1\n").unwrap();
    assert_eq!(insts, vec![Inst { op: OpCode::ADC, val: 1 }]);
}

#[test]
fn subtracting_a_variable_is_unsupported() {
    let e = compile_src("var x\nvar y\nx = x - y\n").unwrap_err();
    assert_eq!(e.0, ProgramError::UnsupportedOperator);
    assert_eq!(e.1, b"x = x - y".to_vec());
    assert_eq!(e.2, 3);
}

#[test]
fn redefined_variable_is_an_error() {
    let e = compile_src("var x\nvar x\n").unwrap_err();
    assert_eq!(e.0, ProgramError::VarAlreadyDefined);
    assert_eq!(e.2, 2);
}

#[test]
fn undefined_variable_is_an_error() {
    let e = compile_src("y=1\n").unwrap_err();
    assert_eq!(e.0, ProgramError::VarUndefined);
}

#[test]
fn purely_numeric_name_is_rejected() {
    let e = compile_src("var 123\n").unwrap_err();
    assert_eq!(e.0, ProgramError::BadVarName);
}

#[test]
fn name_with_embedded_space_is_rejected() {
    let e = compile_src("var a b=1\n").unwrap_err();
    assert_eq!(e.0, ProgramError::BadVarName);
}

#[test]
fn reg_cannot_be_declared() {
    let e = compile_src("var reg=1\n").unwrap_err();
    assert_eq!(e.0, ProgramError::ReservedName);
}

#[test]
fn bare_reg_needs_an_initializer() {
    let e = compile_src("reg\n").unwrap_err();
    assert_eq!(e.0, ProgramError::BadSyntax);
}

#[test]
fn chained_operators_are_a_syntax_error() {
    let e = compile_src("var x=1+-2\n").unwrap_err();
    assert_eq!(e.0, ProgramError::BadSyntax);
}

#[test]
fn equals_inside_goto_condition_is_a_syntax_error() {
    let e = compile_src("l ; noop\ngoto l a=b\n").unwrap_err();
    assert_eq!(e.0, ProgramError::BadSyntax);
}

#[test]
fn empty_label_is_an_error() {
    let e = compile_src("; noop\n").unwrap_err();
    assert_eq!(e.0, ProgramError::NoLabelLen);
}

#[test]
fn label_on_an_empty_line_is_an_error() {
    let e = compile_src("end ;\n").unwrap_err();
    assert_eq!(e.0, ProgramError::EmptyLineLabelled);
}

#[test]
fn goto_without_a_label_is_an_error() {
    let e = compile_src("goto # where to?\n").unwrap_err();
    assert_eq!(e.0, ProgramError::LabelNotSpecified);
}

#[test]
fn comments_and_blank_lines_are_skipped() {
    let insts = compile_src("# all comment\n\nnoop # trailing\n").unwrap();
    assert_eq!(insts, vec![Inst { op: OpCode::ADC, val: 0 }]);
}

#[test]
fn empty_source_compiles_to_nothing() {
    let insts = compile_src("").unwrap();
    assert!(insts.is_empty());
}

#[test]
fn negative_literal_is_stored_in_twos_complement() {
    let insts = compile_src("var x=-5\n").unwrap();
    assert_eq!(insts[0], Inst { op: OpCode::LDC, val: 251 });
}

#[test]
fn bare_new_variable_is_cleared_then_stored() {
    let insts = compile_src("var a\nvar b\n").unwrap();
    assert_eq!(
        insts,
        vec![
            Inst { op: OpCode::CLR, val: 0 },
            Inst { op: OpCode::STR, val: 127 },
            Inst { op: OpCode::CLR, val: 0 },
            Inst { op: OpCode::STR, val: 128 },
        ]
    );
}

#[test]
fn requested_stack_size_moves_the_cursor() {
    let mut p = Program::new(Some(10));
    p.append_instructions("var a=1\n").unwrap();
    assert_eq!(p.get_inner()[1], Inst { op: OpCode::STR, val: 245 });
}

#[test]
fn each_expression_term_emits_one_instruction() {
    // Three terms, then the store: four instructions in all.
    let insts = compile_src("var x=1+2+3\n").unwrap();
    assert_eq!(insts.len(), 4);
    assert_eq!(insts[0], Inst { op: OpCode::LDC, val: 1 });
    assert_eq!(insts[1], Inst { op: OpCode::ADC, val: 2 });
    assert_eq!(insts[2], Inst { op: OpCode::ADC, val: 3 });
    assert_eq!(insts[3], Inst { op: OpCode::STR, val: 127 });
}

#[test]
fn subtracting_a_literal_folds_the_negation() {
    let insts = compile_src("var x=10-3\n").unwrap();
    assert_eq!(insts[1], Inst { op: OpCode::ADC, val: 253 });
}
