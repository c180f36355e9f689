use retroc::lang::inst::VarMode;
use retroc::lang::{Inst, OpCode, Program, ProgramError};

#[test]
fn handle_expr_folds_literals() {
    let mut p = Program::new(None);
    p.handle_expr("2+3").unwrap();
    assert_eq!(
        p.get_inner().clone(),
        vec![Inst { op: OpCode::LDC, val: 2 }, Inst { op: OpCode::ADC, val: 3 }]
    );
}

#[test]
fn handle_var_binds_and_stores() {
    let mut p = Program::new(None);
    p.handle_var("x=7", VarMode::NewVar).unwrap();
    assert_eq!(
        p.get_inner().clone(),
        vec![Inst { op: OpCode::LDC, val: 7 }, Inst { op: OpCode::STR, val: 127 }]
    );
}

#[test]
fn handle_var_set_mode_needs_a_binding() {
    let mut p = Program::new(None);
    let e = p.handle_var("x=7", VarMode::SetVar).unwrap_err();
    assert_eq!(e, ProgramError::VarUndefined);
}

#[test]
fn queued_goto_fails_resolution_without_its_label() {
    let mut p = Program::new(None);
    p.add_goto("somewhere", "goto somewhere", 4).unwrap();
    assert_eq!(p.get_inner().clone(), vec![Inst { op: OpCode::BRA, val: 0 }]);
    let e = p.append_instructions("").unwrap_err();
    assert_eq!(e.0, ProgramError::LabelNotFound);
    assert_eq!(e.1, b"goto somewhere".to_vec());
    assert_eq!(e.2, 4);
}

#[test]
fn set_inst_overwrites_in_place() {
    let mut p = Program::new(None);
    p.push_inst(OpCode::BRA, 0);
    p.set_inst(0, OpCode::BRA, 5);
    assert_eq!(p.get_inner().clone(), vec![Inst { op: OpCode::BRA, val: 5 }]);
}
