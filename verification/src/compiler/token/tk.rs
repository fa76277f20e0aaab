//! The kinds of token, by category.
use vstd::prelude::*;

verus! {

#[derive(Clone, Copy, Debug, PartialEq, Eq, Structural)]
pub enum General {
    // Keywords
    Fn,
    Let,
    If,
    Else,
    While,
    Return,
    Ident,
    String,  // "..."
    Number,
    // Brackets
    LRndBracket,  // (
    RRndBracket,  // )
    LBrace,  // {
    RBrace,  // }
    Arrow,  // ->
    Semicolon,  // ;
    Colon,  // :
    Comma,  // ,
}

#[derive(Clone, Copy, Debug, PartialEq, Eq, Structural)]
pub enum Operator {
    Plus,  // +
    Minus,  // -
    Star,  // *
    Slash,  // /
    Mod,  // %
    Not,  // !
    BitInv,  // ~
    LShift,  // <<
    RShift,  // >>
    Ampersand,  // &
    Bar,  // |
    // Logical operators
    And,  // &&
    Or,  // ||
    // Comparators
    Eq,  // ==
    NotEq,  // !=
    Lt,  // <
    Gt,  // >
    LtEq,  // <=
    GtEq,  // >=
}

#[derive(Clone, Copy, Debug, PartialEq, Eq, Structural)]
pub enum Setter {
    Assign,  // =
    PlusSet,  // +=
    MinusSet,  // -=
    StarSet,  // *=
    SlashSet,  // /=
    ModSet,  // %=
    BitInvSet,  // ~=
    LShiftSet,  // <<=
    RShiftSet,  // >>=
    BitAndSet,  // &=
    BitOrSet,  // |=
}

} // verus!
