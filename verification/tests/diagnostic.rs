use cpu16::compiler::diagnostic::{Diagnostic, Severity};
use cpu16::compiler::error::ParserError;
use cpu16::compiler::token::tk::General;
use cpu16::compiler::token::{Token, TokenKind};
use cpu16::compiler::types::NumWord;

#[test]
fn flush_orders_by_line_then_column_and_keeps_ties_in_order() {
    let mut d = Diagnostic::new();
    d.error("b".to_string(), 3, 1);
    d.warning("a".to_string(), 1, 5);
    d.fatal("c".to_string(), 3, 1);
    d.error("d".to_string(), 1, 2);
    let out = d.flush();
    let got: Vec<(String, usize, usize)> =
        out.iter().map(|i| (i.message.clone(), i.line, i.col)).collect();
    assert_eq!(
        got,
        vec![
            ("d".to_string(), 1, 2),
            ("a".to_string(), 1, 5),
            ("b".to_string(), 3, 1),
            ("c".to_string(), 3, 1),
        ]
    );
    assert_eq!(out[3].severity, Severity::Fatal);
}

#[test]
fn report_lines_name_the_severity_and_position() {
    let mut d = Diagnostic::new();
    d.warning("unused".to_string(), 12, 4);
    d.fatal("broken".to_string(), 7, 10);
    let out = d.flush();
    assert_eq!(out[0].report_line(), "error [7:10]: broken");
    assert_eq!(out[1].report_line(), "warning [12:4]: unused");
}

#[test]
fn flags_follow_reports_and_reset() {
    let mut d = Diagnostic::new();
    assert!(d.is_clear());
    d.warning("w".to_string(), 1, 1);
    assert!(d.has_warning() && !d.has_error() && !d.has_fatal());
    d.reset_flags();
    assert!(!d.has_warning());
    assert!(!d.is_clear());
}

#[test]
fn parser_errors_say_what_went_wrong() {
    let token = Token { word: NumWord::new("}".to_string(), 4, 2), kind: TokenKind::General(General::RBrace) };
    let e = ParserError::UnexpectedToken { token, expected: vec![TokenKind::General(General::Semicolon)] };
    assert_eq!(e.message(), "unexpected token '}', expected");
    let e = ParserError::EndOfFile { expected: None };
    assert_eq!(e.message(), "found end of file");
}
