use retroc::MEM_SIZE;
use retroc::compiler::{Compiler, CompilerError};
use retroc::compiler::image::AsmOutput;
use retroc::lang::{OpCode, Program};

const NAMES: [&str; 8] = ["LDC", "LDM", "ADC", "ADM", "STR", "CLR", "BRA", "BRQ"];
const CODES: [&str; 8] = ["0a", "1a", "2a", "3a", "4a", "5a", "6a", "7a"];

#[test]
fn rendering_is_name_space_hex_newline() {
    let mut p = Program::new(None);
    p.push_inst(OpCode::LDC, 255);
    p.push_inst(OpCode::ADC, 0);
    assert_eq!(p.render(), b"LDC ff\nADC 00\n".to_vec());
}

#[test]
fn compile_pairs_operand_before_opcode() {
    let c = Compiler::new(&NAMES, &CODES);
    let out = match c.compile("LDC 05\nBRA 0a\n") {
        Ok(o) => o,
        Err(_) => panic!("expected success"),
    };
    let toks: Vec<&[u8]> = out.0.iter().map(|v| v.as_slice()).collect();
    assert_eq!(toks, vec![b"05" as &[u8], b"0a", b"0a", b"6a"]);
}

#[test]
fn unknown_instruction_name_is_an_error() {
    let c = Compiler::new(&NAMES, &CODES);
    match c.compile("XYZ 00\n") {
        Err(CompilerError::UnknownInst(n)) => assert_eq!(n, b"XYZ".to_vec()),
        _ => panic!("expected an unknown-instruction error"),
    }
}

#[test]
fn operand_of_wrong_width_is_an_error() {
    let c = Compiler::new(&NAMES, &CODES);
    match c.compile("LDC 123\n") {
        Err(CompilerError::ShortHex(l)) => assert_eq!(l, b"LDC 123".to_vec()),
        _ => panic!("expected a malformed-operand error"),
    }
}

#[test]
fn blank_line_is_an_error() {
    let c = Compiler::new(&NAMES, &CODES);
    assert!(matches!(c.compile("\n"), Err(CompilerError::NewLine)));
}

#[test]
fn missing_operand_defaults_to_zero() {
    let c = Compiler::new(&NAMES, &CODES);
    let out = match c.compile("CLR\n") {
        Ok(o) => o,
        Err(_) => panic!("expected success"),
    };
    assert_eq!(out.0[0], b"00".to_vec());
    assert_eq!(out.0[1], b"5a".to_vec());
}

#[test]
fn round_trip_covers_every_opcode() {
    // Rendering a program that uses each intermediate opcode and mapping
    // it back gives, per instruction, its operand and its table token.
    let mut p = Program::new(None);
    let ops = [
        OpCode::LDC,
        OpCode::LDM,
        OpCode::ADC,
        OpCode::ADM,
        OpCode::STR,
        OpCode::CLR,
        OpCode::BRA,
        OpCode::BRQ,
    ];
    for (k, op) in ops.iter().enumerate() {
        p.push_inst(*op, k as u8);
    }
    let rendered = String::from_utf8(p.render()).unwrap();
    let c = Compiler::new(&NAMES, &CODES);
    let out = match c.compile(&rendered) {
        Ok(o) => o,
        Err(_) => panic!("expected success"),
    };
    assert_eq!(out.0.len(), 16);
    for k in 0..8 {
        assert_eq!(out.0[2 * k], format!("0{}", k).into_bytes());
        assert_eq!(out.0[2 * k + 1], CODES[k].as_bytes().to_vec());
    }
}

#[test]
fn image_reverses_tokens_and_pads_to_capacity() {
    let out = AsmOutput(vec![b"05".to_vec(), b"0a".to_vec()]);
    let img = out.to_image().unwrap();
    assert_eq!(img.len(), 2 * 2 * MEM_SIZE as usize);
    assert_eq!(&img[..4], b"50a0");
    assert!(img[4..].iter().all(|&b| b == b'-'));
}

#[test]
fn image_at_exact_capacity_succeeds() {
    let cap = 2 * MEM_SIZE as usize;
    let out = AsmOutput(vec![b"ab".to_vec(); cap]);
    let img = out.to_image().unwrap();
    assert_eq!(img.len(), 2 * cap);
    assert!(img.chunks(2).all(|c| c == b"ba"));
}

#[test]
fn image_one_token_over_capacity_is_refused() {
    let cap = 2 * MEM_SIZE as usize;
    let out = AsmOutput(vec![b"ab".to_vec(); cap + 1]);
    assert!(out.to_image().is_none());
}

#[test]
fn compiling_twice_yields_byte_identical_images() {
    let src = "var x=5\nx=x+3\ngoto end\nend ; noop\n";
    let c = Compiler::new(&NAMES, &CODES);
    let mut images = Vec::new();
    for _ in 0..2 {
        let mut p = Program::new(None);
        p.append_instructions(src).unwrap();
        let rendered = String::from_utf8(p.render()).unwrap();
        let out = match c.compile(&rendered) {
            Ok(o) => o,
            Err(_) => panic!("expected success"),
        };
        images.push(out.to_image().unwrap());
    }
    assert_eq!(images[0], images[1]);
}

#[test]
fn full_pipeline_boundary_at_capacity() {
    // MEM_SIZE noop lines compile to MEM_SIZE instructions, exactly the
    // token capacity of the image; one more line no longer fits.
    let c = Compiler::new(&NAMES, &CODES);
    let fits = "noop\n".repeat(MEM_SIZE as usize);
    let mut p = Program::new(None);
    p.append_instructions(&fits).unwrap();
    let out = match c.compile(&String::from_utf8(p.render()).unwrap()) {
        Ok(o) => o,
        Err(_) => panic!("expected success"),
    };
    let img = out.to_image().unwrap();
    assert_eq!(img.len(), 2 * 2 * MEM_SIZE as usize);
    assert!(img.iter().all(|&b| b != b'-'));

    let over = "noop\n".repeat(MEM_SIZE as usize + 1);
    let mut p2 = Program::new(None);
    p2.append_instructions(&over).unwrap();
    let out2 = match c.compile(&String::from_utf8(p2.render()).unwrap()) {
        Ok(o) => o,
        Err(_) => panic!("expected success"),
    };
    assert!(out2.to_image().is_none());
}
