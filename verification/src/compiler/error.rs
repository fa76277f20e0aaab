//! Errors of a token-driven parser: a token that does not fit, or an input that
//! ends too soon.
use vstd::prelude::*;

use crate::compiler::token::{Token, TokenKind};

verus! {

pub enum ParserError {
    UnexpectedToken { token: Token, expected: Vec<TokenKind> },
    EndOfFile { expected: Option<Vec<TokenKind>> },
}

/// What a parser error says: the word of the unexpected token, or that the
/// input ended.
pub open spec fn parser_error_text(e: ParserError) -> Seq<char> {
    match e {
        ParserError::UnexpectedToken { token, .. } => seq![
            'u',
            'n',
            'e',
            'x',
            'p',
            'e',
            'c',
            't',
            'e',
            'd',
            ' ',
            't',
            'o',
            'k',
            'e',
            'n',
            ' ',
            '\'',
        ] + token.word.word@ + seq!['\'', ',', ' ', 'e', 'x', 'p', 'e', 'c', 't', 'e', 'd'],
        ParserError::EndOfFile { .. } => seq![
            'f',
            'o',
            'u',
            'n',
            'd',
            ' ',
            'e',
            'n',
            'd',
            ' ',
            'o',
            'f',
            ' ',
            'f',
            'i',
            'l',
            'e',
        ],
    }
}

impl ParserError {
    /// The text of the error.
    pub fn message(&self) -> (r: String)
        ensures
            r@ == parser_error_text(*self),
    {
        let mut s = String::new();
        match self {
            ParserError::UnexpectedToken { token, .. } => {
                crate::compiler::chars::push_text(&mut s, "unexpected token '");
                crate::compiler::chars::push_text(&mut s, token.word.word.as_str());
                crate::compiler::chars::push_text(&mut s, "', expected");
                proof {
                    reveal_strlit("unexpected token '");
                    reveal_strlit("', expected");
                }
            },
            ParserError::EndOfFile { .. } => {
                crate::compiler::chars::push_text(&mut s, "found end of file");
                proof {
                    reveal_strlit("found end of file");
                }
            },
        }
        assert(s@ =~= parser_error_text(*self));
        s
    }
}

} // verus!
