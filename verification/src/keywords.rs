//! The table of reserved words.

use vstd::prelude::*;
use crate::lexicon::keyword_kind;
use crate::text::spells;
use crate::token::TokenType;

verus! {

/// Looks `text` up among the reserved words.
pub fn keyword(text: &[char]) -> (kind: Option<TokenType>)
    ensures
        kind == keyword_kind(text@),
{
    if spells(text, "and") {
        Some(TokenType::AND)
    } else if spells(text, "or") {
        Some(TokenType::OR)
    } else if spells(text, "true") {
        Some(TokenType::TRUE)
    } else if spells(text, "false") {
        Some(TokenType::FALSE)
    } else if spells(text, "if") {
        Some(TokenType::IF)
    } else if spells(text, "else") {
        Some(TokenType::ELSE)
    } else if spells(text, "while") {
        Some(TokenType::WHILE)
    } else if spells(text, "for") {
        Some(TokenType::FOR)
    } else if spells(text, "return") {
        Some(TokenType::RETURN)
    } else if spells(text, "class") {
        Some(TokenType::CLASS)
    } else if spells(text, "fun") {
        Some(TokenType::FUN)
    } else if spells(text, "this") {
        Some(TokenType::THIS)
    } else if spells(text, "super") {
        Some(TokenType::SUPER)
    } else if spells(text, "print") {
        Some(TokenType::PRINT)
    } else if spells(text, "nil") {
        Some(TokenType::NIL)
    } else if spells(text, "var") {
        Some(TokenType::VAR)
    } else {
        None
    }
}

} // verus!
