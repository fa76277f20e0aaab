use cpu16::compiler::diagnostic::Diagnostic;
use cpu16::compiler::lexer::{lex, LexerOutput};
use cpu16::compiler::token::tk::General::{Colon, Ident, Let, Number, Semicolon, String};
use cpu16::compiler::token::tk::Operator::{Minus, Star};
use cpu16::compiler::token::tk::Setter::Assign;
use cpu16::compiler::token::TokenKind;
use cpu16::compiler::token::TokenKind::General as Gn;
use cpu16::compiler::token::TokenKind::Operator as Op;
use cpu16::compiler::token::TokenKind::Setter as St;
use cpu16::compiler::token::TokenKind::Unknown;

fn call_lexer(source_code: &str) -> (Result<LexerOutput, ()>, Diagnostic) {
    let mut diag = Diagnostic::new();
    let output = lex(source_code, &mut diag);
    (output, diag)
}

fn token_kinds(output: LexerOutput) -> Vec<TokenKind> {
    output.into_iter().map(|t| t.kind).collect()
}

#[test]
fn simple_test_1() {
    let (result, diag) = call_lexer(r#" let a_b: 32 = 10 * 5 - 10; "#);

    assert!(diag.is_clear());
    assert_eq!(
        token_kinds(result.unwrap()),
        vec![
            Gn(Let),
            Gn(Ident),
            Gn(Colon),
            Gn(Number),
            St(Assign),
            Gn(Number),
            Op(Star),
            Gn(Number),
            Op(Minus),
            Gn(Number),
            Gn(Semicolon),
        ]
    );
}

#[test]
fn string() {
    let (result, diag) = call_lexer(
        r#" "сдкйа;кй
        eeeeeeeee    usoatuh
                    ausaotehucg
            aoe          cuhча 324
            84688[{[{  };;,.u ao'qjk {(y;)}]}
            oeu]

            ііїѡіѳѳѳёшццѧѕ
            ѧѧѧ
            іі҃҃҃с

            ір
            ѹ҃҃ѹѹѹ
            їїї
            8648" "#,
    );

    assert!(diag.is_clear());
    assert_eq!(token_kinds(result.unwrap()), vec![Gn(String)]);
}

#[test]
fn number_literals() {
    let (result, diag) = call_lexer(
        r#"
                10000
                1_000_000__
                0b101101
                0o____342_63
                0xffaEEb
            "#,
    );

    assert!(diag.is_clear());
    assert_eq!(
        token_kinds(result.unwrap()),
        vec![Gn(Number), Gn(Number), Gn(Number), Gn(Number), Gn(Number),]
    );
}

#[test]
fn empty_number_literals() {
    let (result, diag) = call_lexer(
        r#"
                0b
                0b_
                0b___
                0o
                0o_
                0o___
                0x
                0x_
                0x___
            "#,
    );

    assert!(diag.is_clear());
    assert_eq!(token_kinds(result.unwrap()), vec![Gn(Number); 9]);
}

#[test]
fn unfmt() {
    let (result1, diag1) = call_lexer(
        r#"
            fn fib(n: u32) -> u32 {
                "Ансасдф ... 45 }() {&}
                
                Тофик";
                if n < 2 {return 1;}//Aboba
                return fib(n - 2) + fib(n - 1);
            }"#,
    );

    let (result2, diag2) = call_lexer(
        r#"
            fn fib(n:u32)->u32{"Ансасдф ... 45 }() {&}
                
                Тофик";if n<2{return 1;}return fib(n-2)+fib(n-1);}"#,
    );

    assert_eq!(diag1.items, vec![]);
    assert!(diag1.is_clear());
    assert!(diag2.is_clear());
    assert_eq!(token_kinds(result1.unwrap()), token_kinds(result2.unwrap()));
}

#[test]
fn empty() {
    let (result, diag) = call_lexer(r#""#);

    assert!(diag.is_clear());
    assert!(result.unwrap().is_empty());
}

#[test]
fn unclosed_string() {
    let (result, diag) = call_lexer(r#" a = "Hi there! "#);

    assert!(result.is_err());
    assert!(diag.has_fatal());
}

#[test]
fn unexpected_token() {
    let (result, diag) = call_lexer(r#" a = b === c "#);

    assert!(diag.has_error());
    assert_eq!(
        token_kinds(result.unwrap()),
        vec![Gn(Ident), St(Assign), Gn(Ident), Unknown, Gn(Ident)]
    );
}

#[test]
fn symbol_words_are_not_identifiers() {
    let (result, diag) = call_lexer(" a @ b ");
    assert!(diag.has_error());
    assert_eq!(token_kinds(result.unwrap()), vec![Gn(Ident), Unknown, Gn(Ident)]);
}
