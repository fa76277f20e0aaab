//! Tokens of the source language.
use vstd::prelude::*;

use crate::compiler::types::NumWord;

pub mod tk;

verus! {

#[derive(Clone, Debug, PartialEq)]
pub struct Token {
    pub word: NumWord,
    pub kind: TokenKind,
}

#[derive(Clone, Copy, Debug, PartialEq, Eq, Structural)]
pub enum TokenKind {
    General(tk::General),
    Operator(tk::Operator),
    Setter(tk::Setter),
    Unknown,
}

impl TokenKind {
    pub fn is_general(&self) -> (r: bool)
        ensures
            r == (*self is General),
    {
        match self {
            Self::General(_) => true,
            _ => false,
        }
    }

    pub fn is_operator(&self) -> (r: bool)
        ensures
            r == (*self is Operator),
    {
        match self {
            Self::Operator(_) => true,
            _ => false,
        }
    }

    pub fn is_setter(&self) -> (r: bool)
        ensures
            r == (*self is Setter),
    {
        match self {
            Self::Setter(_) => true,
            _ => false,
        }
    }

    pub fn is_unknown(&self) -> (r: bool)
        ensures
            r == (*self is Unknown),
    {
        match self {
            Self::Unknown => true,
            _ => false,
        }
    }
}

} // verus!
