use cpu16::compiler::protolexer::lex;

fn words(src: &str) -> Vec<Vec<String>> {
    lex(src.to_string()).unwrap().lines.into_iter().map(|l| l.words).collect()
}

#[test]
fn lines_are_split_into_upper_case_words() {
    let r = lex("procedure main\n  x = 1 add 2\n".to_string()).unwrap();
    assert_eq!(r.lines.len(), 2);
    assert_eq!(r.lines[0].words, vec!["PROCEDURE", "MAIN"]);
    assert_eq!(r.lines[1].words, vec!["X", "=", "1", "ADD", "2"]);
    assert_eq!(r.lines[1].source_line.power, 2);
    assert_eq!(r.lines[1].source_line.line_number, 2);
    assert!(r.string_register.is_empty());
}

#[test]
fn comments_and_empty_lines_are_dropped() {
    let r = lex("! a comment\n\nvariable x ! trailing\n   \n".to_string()).unwrap();
    assert_eq!(r.lines.len(), 1);
    assert_eq!(r.lines[0].words, vec!["VARIABLE", "X"]);
    assert_eq!(r.lines[0].source_line.line_number, 3);
    assert_eq!(r.lines[0].source_line.string, "variable x");
}

#[test]
fn strings_move_to_the_register() {
    let r = lex("call print(\"Hello ! world\", \"\")\n".to_string()).unwrap();
    assert_eq!(r.string_register, vec!["Hello ! world"]);
    assert_eq!(r.lines[0].words, vec!["CALL", "PRINT", "(", "\"0", ",", ")"]);
}

#[test]
fn key_symbols_stand_apart() {
    assert_eq!(words("[i]a=b,c"), vec![vec!["[", "I", "]", "A=B", ",", "C"]]);
}

#[test]
fn non_ascii_line_is_refused() {
    let e = lex("variable x\nvariable é\n".to_string()).unwrap_err();
    assert_eq!(e.message, "Source code and strings MUST BE ASCII");
    assert_eq!(e.line_number, 2);
}

#[test]
fn crlf_line_ends() {
    assert_eq!(words("a = 1\r\nb = 2\r\n"), vec![vec!["A", "=", "1"], vec!["B", "=", "2"]]);
}
