use cpu16::compiler::codegen::{asm_fault, check_program, AsmFault, Codegen, Command, ProgramFault};
use cpu16::compiler::parser::{parse, ASTNode};
use cpu16::compiler::protolexer::lex;
use cpu16::isa::{encode_instruction, Mode, Opcode, Register};

fn ast(src: &str) -> (Vec<ASTNode>, Vec<String>) {
    let l = lex(src.to_string()).unwrap();
    (parse(l.lines).unwrap(), l.string_register)
}

fn words(code: &Codegen) -> Vec<String> {
    code.commands
        .iter()
        .map(|c| match c {
            Command::Word(w) => w.to_string(),
            Command::Label(l) => format!("@{}", l),
        })
        .collect()
}

#[test]
fn empty_procedure_frame() {
    let (nodes, strings) = ast("procedure main\n  return");
    let code = Codegen::new(nodes, strings);
    assert_eq!(
        words(&code),
        vec![
            "40000", "0", "37888", "37889", "37890", "37891", "37892", "37893", "22592",
            "@MAIN .out", "38952", "38944", "38936", "38928", "38920", "38912", "40960", "36864"
        ]
    );
    assert_eq!(code.labels.get("MAIN"), Some(0));
    assert_eq!(code.labels.get("MAIN .out"), Some(10));
    assert_eq!(code.labels.get("OTHER"), None);
}

#[test]
fn frame_size_is_the_stack_of_the_variables() {
    let (nodes, strings) = ast("procedure main a\n  variable v\n  array b 3\n  v = a");
    let code = Codegen::new(nodes, strings);
    let w = words(&code);
    // ENTER #5: one word for V, one pointer and three words for B.
    assert_eq!(w[0], "40000");
    assert_eq!(w[1], "5");
    // V at BP - 1, initialised to 0.
    let mov_imm_to_memra = encode_instruction(Opcode::Mov, Mode::ImmToMemra, Register::BP, Register::BP);
    assert_eq!(w[8], mov_imm_to_memra.to_string());
    assert_eq!(w[9], 65535.to_string());
    assert_eq!(w[10], "0");
    // The last instruction drops the one argument.
    assert_eq!(w[w.len() - 2], encode_instruction(Opcode::Ret, Mode::ImmToReg, Register::AL, Register::AL).to_string());
    assert_eq!(w[w.len() - 1], "1");
}

#[test]
fn globals_and_strings_follow_the_procedures() {
    let (nodes, strings) = ast("variable g\narray a 2\nprocedure main\n  x = \"hi\"\n  return");
    let code = Codegen::new(nodes, strings);
    let n = code.commands.len();
    let g = code.labels.get("G").unwrap();
    assert_eq!(code.labels.get("A"), Some(g + 1));
    assert_eq!(code.labels.get(".str 0"), Some(g + 3));
    let w = words(&code);
    assert_eq!(&w[g..], &["0", "0", "0", "104", "105", "0"]);
    assert_eq!(n, g + 6);
    assert!(w.contains(&"@.str 0".to_string()));
}

#[test]
fn comparison_takes_fresh_labels() {
    let (nodes, strings) = ast("procedure main\n  x = 1 lt 2\n  y = 1 eq 2");
    let code = Codegen::new(nodes, strings);
    assert!(code.labels.get(".cmp true 0").is_some());
    assert!(code.labels.get(".cmp end 1").is_some());
    let w = words(&code);
    let jl = encode_instruction(Opcode::Jl, Mode::ImmToReg, Register::AL, Register::AL).to_string();
    let je = encode_instruction(Opcode::Je, Mode::ImmToReg, Register::AL, Register::AL).to_string();
    let i = w.iter().position(|x| *x == jl).unwrap();
    assert_eq!(w[i + 1], "@.cmp true 0");
    let j = w.iter().position(|x| *x == je).unwrap();
    assert_eq!(w[j + 1], "@.cmp true 1");
}

#[test]
fn loops_and_ifs_take_labels() {
    let (nodes, strings) = ast("procedure main\n  loop\n    if x\n      stop\n    else\n      x = 0");
    let code = Codegen::new(nodes, strings);
    assert!(code.labels.get(".loop 0").is_some());
    assert!(code.labels.get(".loop 0 out").is_some());
    assert!(code.labels.get(".if else 1").is_some());
    assert!(code.labels.get(".if end 1").is_some());
    assert!(words(&code).contains(&"@.loop 0 out".to_string()));
}

#[test]
fn assembly_source() {
    let mut code = Codegen::new_from_asm("; comment\n: start\n# -1\n@ start\nmov immtoreg al al\n\nx y\n".to_string());
    assert_eq!(words(&code), vec!["65535", "@START", "2112"]);
    assert_eq!(code.labels.get("START"), Some(0));
    code.add_asm_src("Hlt RegToReg Al Al".to_string());
    assert_eq!(words(&code), vec!["65535", "@START", "2112", "1024"]);
    code.add_labels_offset(256);
    assert_eq!(code.labels.get("START"), Some(256));
}

#[test]
fn assembly_faults() {
    assert_eq!(asm_fault("nop regtoreg al al\nmov foo al al"), Some((1, AsmFault::Mode)));
    assert_eq!(asm_fault("# x"), Some((0, AsmFault::Number)));
    assert_eq!(asm_fault("xyz a b c"), Some((0, AsmFault::Opcode)));
    assert_eq!(asm_fault("mov regtoreg q al"), Some((0, AsmFault::RegisterRd)));
    assert_eq!(asm_fault("mov regtoreg al q"), Some((0, AsmFault::RegisterRs)));
    assert_eq!(asm_fault("mov regtoreg al bl\n; fine"), None);
}

#[test]
fn stop_must_be_inside_a_loop() {
    assert_eq!(check_program(&ast("procedure main\n  stop").0), Err(ProgramFault::StopOutsideLoop));
    assert_eq!(check_program(&ast("procedure main\n  loop\n    stop").0), Ok(()));
    assert_eq!(
        check_program(&ast("procedure main\n  array a 65535").0),
        Err(ProgramFault::StackOverflow)
    );
    assert_eq!(check_program(&ast("procedure main\n  array a 65534").0), Ok(()));
}

#[test]
fn the_first_fault_in_program_order_is_reported() {
    assert_eq!(
        check_program(&ast("procedure main\n  array a 65535\n  stop").0),
        Err(ProgramFault::StackOverflow)
    );
    assert_eq!(
        check_program(&ast("procedure main\n  stop\n  array a 65535").0),
        Err(ProgramFault::StopOutsideLoop)
    );
    assert_eq!(
        check_program(&ast("procedure f\n  stop\nprocedure main\n  array a 65535").0),
        Err(ProgramFault::StopOutsideLoop)
    );
}

#[test]
fn mnemonics_in_any_case() {
    assert_eq!(Opcode::from_raw_str("iret"), Some(Opcode::Iret));
    assert_eq!(Mode::from_raw_str("ImmToMemRA"), Some(Mode::ImmToMemra));
    assert_eq!(Register::from_raw_str("bp"), Some(Register::BP));
    assert_eq!(Register::from_raw_str("ip"), None);
}
