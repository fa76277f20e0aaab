use cpu16::compiler::codegen::Codegen;
use cpu16::compiler::driver::{copmile, CompileFailure};
use cpu16::compiler::linker::{link, LinkError};
use cpu16::compiler::parser::ParseFailure;
use cpu16::compiler::codegen::{AsmFault, ProgramFault};
use cpu16::compiler::protolexer::lex;
use cpu16::compiler::parser::parse;
use cpu16::cpu::machine::run;
use std::collections::HashMap;

fn codegen(src: &str) -> Codegen {
    let l = lex(src.to_string()).unwrap();
    Codegen::new(parse(l.lines).unwrap(), l.string_register)
}

#[test]
fn binary_has_the_start_up_block_and_the_program_block() {
    let b = link(codegen("procedure main\n  return")).unwrap();
    assert_eq!(
        &b[..14],
        &[0, 0, 5, 0, 0x70, 0x08, 0xFF, 0xFF, 0x40, 0x8C, 0x00, 0x01, 0x00, 0x04]
    );
    assert_eq!(&b[14..18], &[0x00, 0x01, 18, 0]);
    assert_eq!(b.len(), 18 + 2 * 18);
    // The jump to the exit label holds its address, 256 + 10.
    assert_eq!(&b[18 + 2 * 9..18 + 2 * 10], &[10, 1]);
}

#[test]
fn interrupt_handler_is_bound_when_present() {
    let b = link(codegen("procedure main\n  return\nprocedure io_isr\n  return")).unwrap();
    // mov, #65535, mov, #64, @wrapper, sti, call, @main, hlt, call, @io_isr, iret
    assert_eq!(&b[..4], &[0, 0, 12, 0]);
}

#[test]
fn missing_entry_point() {
    match link(codegen("procedure f\n  return")) {
        Err(LinkError::LabelNotFound(l)) => assert_eq!(l, "MAIN"),
        other => panic!("{:?}", other),
    }
}

#[test]
fn compiled_program_writes_to_the_output_port() {
    let c = copmile("variable zero\nprocedure main\n  [129] zero = 42\n".to_string(), vec![]).unwrap();
    assert_eq!(c.ast.len(), 2);
    let out = run(c.binary, HashMap::new(), 10000).unwrap();
    assert_eq!(out, vec![42]);
}

#[test]
fn compiled_program_computes() {
    let src = "variable zero\nprocedure main\n  variable i\n  i = 0\n  loop\n    if i eq 3\n      stop\n    [129] zero = i mul 10 add 1\n    i = i add 1\n";
    let c = copmile(src.to_string(), vec![]).unwrap();
    let out = run(c.binary, HashMap::new(), 100000).unwrap();
    assert_eq!(out, vec![1, 11, 21]);
}

#[test]
fn calls_with_arguments() {
    let src = "variable zero\nprocedure out x\n  [129] zero = x\nprocedure main\n  call out 7\n  call out 8 sub 1 sub 2\n";
    let c = copmile(src.to_string(), vec![]).unwrap();
    let out = run(c.binary, HashMap::new(), 100000).unwrap();
    assert_eq!(out, vec![7, 5]);
}

#[test]
fn assembly_sources_are_added() {
    let c = copmile(
        "procedure main\n  call emit\n".to_string(),
        vec![": EMIT\nmov immtoreg al al\n# 9\nmov regtomema al al\n# 129\nret regtoreg al al\n".to_string()],
    )
    .unwrap();
    let out = run(c.binary, HashMap::new(), 10000).unwrap();
    assert_eq!(out, vec![9]);
}

#[test]
fn pipeline_errors() {
    assert!(matches!(copmile("variable é".to_string(), vec![]), Err(CompileFailure::Lex(_))));
    assert!(matches!(
        copmile("x = 1".to_string(), vec![]),
        Err(CompileFailure::Parse(ParseFailure::Syntax(_)))
    ));
    assert!(matches!(
        copmile("procedure main\n  stop".to_string(), vec![]),
        Err(CompileFailure::Program(ProgramFault::StopOutsideLoop))
    ));
    assert!(matches!(
        copmile("procedure main\n  return".to_string(), vec!["ok".to_string(), "a b c d".to_string()]),
        Err(CompileFailure::Asm(1, 0, AsmFault::Opcode))
    ));
    assert!(matches!(
        copmile("procedure f\n  return".to_string(), vec![]),
        Err(CompileFailure::Link(LinkError::LabelNotFound(_)))
    ));
}

#[test]
fn additive_expressions_wrap_at_sixteen_bits() {
    let src = "variable zero\nprocedure main\n  [129] zero = 7 sub 10 add 2\n  [129] zero = 65535 add 3\n  [129] zero = 100 sub ( 30 sub 5 )\n  if 3 lt 10\n    [129] zero = 1\n";
    let c = copmile(src.to_string(), vec![]).unwrap();
    let out = run(c.binary, HashMap::new(), 100000).unwrap();
    assert_eq!(out, vec![65535, 2, 75, 1]);
}
