use cpu16::compiler::parser::{
    parse, ASTNode, Expression, Operator, ParseFailure, VarType, VariableUse,
};
use cpu16::compiler::protolexer::{lex, SourceLine, SourceLineWords};

fn parse_src(src: &str) -> Result<Vec<ASTNode>, ParseFailure> {
    parse(lex(src.to_string()).unwrap().lines)
}

fn syntax(r: Result<Vec<ASTNode>, ParseFailure>) -> (String, usize) {
    match r {
        Err(ParseFailure::Syntax(e)) => (e.message, e.line_number),
        other => panic!("expected a syntax error, got {:?}", other),
    }
}

fn only_statement(src: &str) -> ASTNode {
    let mut nodes = parse_src(src).unwrap();
    assert_eq!(nodes.len(), 1);
    match nodes.remove(0) {
        ASTNode::Procedure { block, .. } => match *block {
            ASTNode::Block { mut children } => {
                assert_eq!(children.len(), 1);
                children.remove(0)
            }
            _ => panic!("no block"),
        },
        _ => panic!("no procedure"),
    }
}

fn assigned(src: &str) -> Expression {
    match only_statement(src) {
        ASTNode::VariableSet { expr, .. } => expr,
        other => panic!("not an assignment: {:?}", other),
    }
}

fn tree_text(t: &termtree::Tree<String>, depth: usize, out: &mut Vec<String>) {
    out.push(format!("{}{}", " ".repeat(depth), t.root));
    for l in &t.leaves {
        tree_text(l, depth + 1, out);
    }
}

#[test]
fn program_with_globals_and_procedure() {
    let nodes =
        parse_src("variable g\narray a 3\nprocedure main x y\n  variable v\n  v = x add 1\n  return\n")
            .unwrap();
    assert_eq!(nodes.len(), 3);
    assert!(matches!(&nodes[0], ASTNode::Variable { name, vtype: VarType::Word } if name == "G"));
    assert!(matches!(&nodes[1], ASTNode::Variable { name, vtype: VarType::Array(3) } if name == "A"));
    match &nodes[2] {
        ASTNode::Procedure { name, args, block } => {
            assert_eq!(name, "MAIN");
            assert_eq!(args, &vec!["X".to_string(), "Y".to_string()]);
            match &**block {
                ASTNode::Block { children } => {
                    assert_eq!(children.len(), 3);
                    assert!(matches!(&children[0], ASTNode::Variable { name, vtype: VarType::Word } if name == "V"));
                    assert!(matches!(
                        &children[1],
                        ASTNode::VariableSet {
                            var: VariableUse { name, deref_offset: None },
                            expr: Expression::BinaryOp { op: Operator::Add, .. },
                        } if name == "V"
                    ));
                    assert!(matches!(&children[2], ASTNode::Return));
                }
                _ => panic!("no block"),
            }
        }
        _ => panic!("no procedure"),
    }
}

#[test]
fn multiplication_binds_tighter_than_addition() {
    match assigned("procedure main\n  x = 1 add 2 mul 3") {
        Expression::BinaryOp { op: Operator::Add, left, right } => {
            assert!(matches!(*left, Expression::Number(1)));
            assert!(matches!(
                *right,
                Expression::BinaryOp { op: Operator::Mul, .. }
            ));
        }
        other => panic!("{:?}", other),
    }
}

#[test]
fn subtraction_groups_to_the_left() {
    match assigned("procedure main\n  x = 1 sub 2 sub 3") {
        Expression::BinaryOp { op: Operator::Sub, left, right } => {
            assert!(matches!(*left, Expression::BinaryOp { op: Operator::Sub, .. }));
            assert!(matches!(*right, Expression::Number(3)));
        }
        other => panic!("{:?}", other),
    }
}

#[test]
fn operands_of_every_kind() {
    match assigned("procedure main\n  x = ref y add [2] a add (-5) add \"hi\"") {
        e @ Expression::BinaryOp { .. } => {
            let text = format!("{:?}", e);
            assert!(text.contains("VariableAddr(\"Y\")"), "{}", text);
            assert!(text.contains("name: \"A\", deref_offset: Some(Number(2))"), "{}", text);
            assert!(text.contains("Expr(Number(-5))"), "{}", text);
            assert!(text.contains("CString(0)"), "{}", text);
        }
        other => panic!("{:?}", other),
    }
}

#[test]
fn if_with_else_and_loop() {
    match only_statement("procedure main\n  if x eq 1\n    loop\n      stop\n  else\n    return") {
        ASTNode::If { expr, block, else_block } => {
            assert!(matches!(expr, Expression::BinaryOp { op: Operator::Eq, .. }));
            match *block {
                ASTNode::Block { children } => {
                    assert_eq!(children.len(), 1);
                    assert!(matches!(&children[0], ASTNode::Loop { .. }));
                }
                _ => panic!(),
            }
            match else_block.map(|b| *b) {
                Some(ASTNode::Block { children }) => {
                    assert!(matches!(&children[..], [ASTNode::Return]));
                }
                _ => panic!("no else"),
            }
        }
        other => panic!("{:?}", other),
    }
}

#[test]
fn call_with_arguments() {
    match only_statement("procedure main\n  call f 1, ref x, [2] a") {
        ASTNode::FnCall { name, args } => {
            assert_eq!(name, "F");
            assert_eq!(args.len(), 3);
            assert!(matches!(args[0], Expression::Number(1)));
            assert!(matches!(&args[1], Expression::VariableAddr(n) if n == "X"));
            assert!(matches!(&args[2], Expression::Variable(VariableUse { deref_offset: Some(_), .. })));
        }
        other => panic!("{:?}", other),
    }
    match only_statement("procedure main\n  call f(1)") {
        ASTNode::FnCall { args, .. } => {
            assert_eq!(args.len(), 1);
            assert!(matches!(&args[0], Expression::Expr(inner) if matches!(**inner, Expression::Number(1))));
        }
        other => panic!("{:?}", other),
    }
}

#[test]
fn comma_inside_parentheses_is_an_operand() {
    let (message, line) = syntax(parse_src("procedure main\n  call f(1, 2)"));
    assert_eq!(
        message,
        "Syntax error - unexpected operand (Variable(VariableUse { name: \",\", deref_offset: None })), expected operator"
    );
    assert_eq!(line, 2);
}

#[test]
fn zero_level_only_allows_declarations() {
    let (message, line) = syntax(parse_src("variable a\nx = 1"));
    assert_eq!(
        message,
        "Syntax error - unexpected construction. Only PROCEDURE, VARIABLE or ARRAY are allowed at zero level"
    );
    assert_eq!(line, 2);
}

#[test]
fn array_size_errors() {
    assert_eq!(
        syntax(parse_src("array a 0")),
        ("Error - array size must be greater than zero".to_string(), 1)
    );
    assert_eq!(
        syntax(parse_src("array a x")),
        (
            "Syntax error - array size parsing error. It must be unsigned number\ninvalid digit found in string"
                .to_string(),
            1
        )
    );
    assert_eq!(
        syntax(parse_src("array a")),
        ("Syntax error - name of the array not found".to_string(), 1)
    );
}

#[test]
fn missing_names() {
    assert_eq!(
        syntax(parse_src("variable")),
        ("Syntax error - name of the variable not found".to_string(), 1)
    );
    assert_eq!(
        syntax(parse_src("procedure")),
        ("Syntax error - name of the procedure not found".to_string(), 1)
    );
    assert_eq!(
        syntax(parse_src("procedure main\n  call")),
        ("Syntax error - function name not found".to_string(), 2)
    );
}

#[test]
fn error_is_reported_at_the_line_before_the_next_one() {
    let (message, line) = syntax(parse_src("procedure main\n  x 1\n\n  y = 2"));
    assert_eq!(message, "Syntax error - expected '=' sign.");
    assert_eq!(line, 2);
}

#[test]
fn expression_errors() {
    assert_eq!(
        syntax(parse_src("procedure main\n  x =")).0,
        "Syntax error - unexpected end of file. Expected operand"
    );
    assert_eq!(
        syntax(parse_src("procedure main\n  x = add 1")).0,
        "Syntax error - unexpected operator (Add), expected operand"
    );
    assert_eq!(
        syntax(parse_src("procedure main\n  x = [1")).0,
        "Syntax error - variable name not found"
    );
}

#[test]
fn faults_that_stop_the_parse() {
    assert!(matches!(parse_src("procedure main\n  \"\""), Err(ParseFailure::EmptyLine)));
    assert!(matches!(parse_src("procedure main\n  x = ref"), Err(ParseFailure::RefNameMissing)));
    let line = |n: usize, power: usize, words: &[&str]| SourceLineWords {
        source_line: SourceLine { line_number: n, power, string: words.join(" ") },
        words: words.iter().map(|w| w.to_string()).collect(),
    };
    let lines = vec![line(1, 0, &["PROCEDURE", "MAIN"]), line(2, 2, &["X", "=", "\"A"])];
    assert!(matches!(parse(lines), Err(ParseFailure::BadStringMarker)));
}

#[test]
fn operators_and_powers() {
    assert_eq!(Operator::from_raw_with_power("MUL"), Some((Operator::Mul, 50)));
    assert_eq!(Operator::from_raw_with_power("ADD"), Some((Operator::Add, 40)));
    assert_eq!(Operator::from_raw_with_power("LTEQ"), Some((Operator::LtEq, 30)));
    assert_eq!(Operator::from_raw_with_power("NEQ"), Some((Operator::NotEq, 20)));
    assert_eq!(Operator::from_raw_with_power("AND"), Some((Operator::And, 10)));
    assert_eq!(Operator::from_raw_with_power("OR"), Some((Operator::Or, 0)));
    assert_eq!(Operator::from_raw_with_power("mul"), None);
}

#[test]
fn iter_parse_stops_at_a_terminator() {
    let words: Vec<String> = ["1", "ADD", "2", ")", "X"].iter().map(|w| w.to_string()).collect();
    let mut pos = 0;
    let e = Expression::iter_parse(&words, &mut pos, &[")"]).unwrap();
    assert_eq!(pos, 3);
    assert!(matches!(e, Expression::BinaryOp { op: Operator::Add, .. }));
    let words: Vec<String> = ["3", "]", "ARR", "=", "1"].iter().map(|w| w.to_string()).collect();
    let mut pos = 0;
    let v = VariableUse::iter_parse_arr_deref(&words, &mut pos).unwrap();
    assert_eq!(v.name, "ARR");
    assert_eq!(pos, 3);
    assert!(VariableUse::new_just_var("Q".to_string()).deref_offset.is_none());
}

#[test]
fn size_of_variable_types() {
    assert_eq!(VarType::Word.get_size_in_words(), 1);
    assert_eq!(VarType::Array(5).get_size_in_words(), 6);
}

#[test]
fn tree_of_a_procedure() {
    let nodes = parse_src("procedure main a\n  x = 1 lteq [2] y\n  if x\n    stop\n  else\n    return").unwrap();
    let mut out = vec![];
    tree_text(&nodes[0].to_termtree(), 0, &mut out);
    assert_eq!(
        out,
        vec![
            "Procedure (MAIN)",
            " Args",
            "  A",
            " Block",
            "  Set",
            "   Variable: X",
            "   Expression",
            "    >=",
            "     Number: 1",
            "     Variable: Y",
            "      Deref offset",
            "       Number: 2",
            "  If",
            "   Condition",
            "    Variable: X",
            "   Block",
            "    Stop",
            "   Else",
            "    Return",
        ]
    );
    let mut out = vec![];
    tree_text(&VarType::Array(4).to_termtree(), 0, &mut out);
    assert_eq!(out, vec!["Type: ARRAY (4)"]);
}
