//! Token kinds and tokens.

use vstd::prelude::*;
use vstd::string::StringExecFns;
use crate::text::{decimal, push_decimal};

verus! {

/// The closed set of token kinds.
#[derive(Debug, Clone, Copy, PartialEq, Eq, Structural)]
pub enum TokenType {
    LeftParen,
    RightParen,
    LeftBrace,
    RightBrace,
    Comma,
    Dot,
    Minus,
    Plus,
    Semicolon,
    Slash,
    Star,
    Bang,
    BangEqual,
    Equal,
    EqualEqual,
    Greater,
    GreaterEqual,
    Less,
    LessEqual,
    IDENTIFIER,
    STRING,
    NUMBER,
    AND,
    OR,
    IF,
    ELSE,
    WHILE,
    FOR,
    TRUE,
    FALSE,
    CLASS,
    FUN,
    NIL,
    SUPER,
    THIS,
    PRINT,
    RETURN,
    VAR,
    EOF,
}

impl TokenType {
    /// The name of the kind, as it is written in this enumeration.
    pub open spec fn spec_name(self) -> Seq<char> {
        match self {
            TokenType::LeftParen => "LeftParen"@,
            TokenType::RightParen => "RightParen"@,
            TokenType::LeftBrace => "LeftBrace"@,
            TokenType::RightBrace => "RightBrace"@,
            TokenType::Comma => "Comma"@,
            TokenType::Dot => "Dot"@,
            TokenType::Minus => "Minus"@,
            TokenType::Plus => "Plus"@,
            TokenType::Semicolon => "Semicolon"@,
            TokenType::Slash => "Slash"@,
            TokenType::Star => "Star"@,
            TokenType::Bang => "Bang"@,
            TokenType::BangEqual => "BangEqual"@,
            TokenType::Equal => "Equal"@,
            TokenType::EqualEqual => "EqualEqual"@,
            TokenType::Greater => "Greater"@,
            TokenType::GreaterEqual => "GreaterEqual"@,
            TokenType::Less => "Less"@,
            TokenType::LessEqual => "LessEqual"@,
            TokenType::IDENTIFIER => "IDENTIFIER"@,
            TokenType::STRING => "STRING"@,
            TokenType::NUMBER => "NUMBER"@,
            TokenType::AND => "AND"@,
            TokenType::OR => "OR"@,
            TokenType::IF => "IF"@,
            TokenType::ELSE => "ELSE"@,
            TokenType::WHILE => "WHILE"@,
            TokenType::FOR => "FOR"@,
            TokenType::TRUE => "TRUE"@,
            TokenType::FALSE => "FALSE"@,
            TokenType::CLASS => "CLASS"@,
            TokenType::FUN => "FUN"@,
            TokenType::NIL => "NIL"@,
            TokenType::SUPER => "SUPER"@,
            TokenType::THIS => "THIS"@,
            TokenType::PRINT => "PRINT"@,
            TokenType::RETURN => "RETURN"@,
            TokenType::VAR => "VAR"@,
            TokenType::EOF => "EOF"@,
        }
    }

    /// The name of the kind.
    pub fn name(self) -> (name: &'static str)
        ensures
            name@ == self.spec_name(),
    {
        match self {
            TokenType::LeftParen => "LeftParen",
            TokenType::RightParen => "RightParen",
            TokenType::LeftBrace => "LeftBrace",
            TokenType::RightBrace => "RightBrace",
            TokenType::Comma => "Comma",
            TokenType::Dot => "Dot",
            TokenType::Minus => "Minus",
            TokenType::Plus => "Plus",
            TokenType::Semicolon => "Semicolon",
            TokenType::Slash => "Slash",
            TokenType::Star => "Star",
            TokenType::Bang => "Bang",
            TokenType::BangEqual => "BangEqual",
            TokenType::Equal => "Equal",
            TokenType::EqualEqual => "EqualEqual",
            TokenType::Greater => "Greater",
            TokenType::GreaterEqual => "GreaterEqual",
            TokenType::Less => "Less",
            TokenType::LessEqual => "LessEqual",
            TokenType::IDENTIFIER => "IDENTIFIER",
            TokenType::STRING => "STRING",
            TokenType::NUMBER => "NUMBER",
            TokenType::AND => "AND",
            TokenType::OR => "OR",
            TokenType::IF => "IF",
            TokenType::ELSE => "ELSE",
            TokenType::WHILE => "WHILE",
            TokenType::FOR => "FOR",
            TokenType::TRUE => "TRUE",
            TokenType::FALSE => "FALSE",
            TokenType::CLASS => "CLASS",
            TokenType::FUN => "FUN",
            TokenType::NIL => "NIL",
            TokenType::SUPER => "SUPER",
            TokenType::THIS => "THIS",
            TokenType::PRINT => "PRINT",
            TokenType::RETURN => "RETURN",
            TokenType::VAR => "VAR",
            TokenType::EOF => "EOF",
        }
    }
}

/// What a token is, as a mathematical value.
pub struct TokenView {
    pub kind: TokenType,
    /// The matched source text for identifiers, strings and numbers; empty
    /// for every kind whose spelling is fixed.
    pub lexeme: Seq<char>,
    /// One-based line on which the token's first character stands.
    pub line: nat,
}

/// One token of the source text.
#[derive(Debug)]
pub struct Token {
    token_type: TokenType,
    lexeme: String,
    line: usize,
}

impl View for Token {
    type V = TokenView;

    closed spec fn view(&self) -> TokenView {
        TokenView { kind: self.token_type, lexeme: self.lexeme@, line: self.line as nat }
    }
}

/// How a token is displayed: `L`, its line, a colon, its kind and its
/// lexeme, the last three parted by single spaces.
pub open spec fn display(token: TokenView) -> Seq<char> {
    "L"@ + decimal(token.line) + ": "@ + token.kind.spec_name() + " "@ + token.lexeme
}

impl Token {
    /// A token of kind `token_type` with the text `lexeme`, met on `line`.
    pub fn new(token_type: TokenType, lexeme: String, line: usize) -> (token: Token)
        ensures
            token@ == (TokenView { kind: token_type, lexeme: lexeme@, line: line as nat }),
    {
        Token { token_type, lexeme, line }
    }

    /// The display form of the token.
    pub fn to_string(&self) -> (text: String)
        ensures
            text@ == display(self@),
    {
        let mut text = String::new();
        text.append("L");
        push_decimal(&mut text, self.line);
        text.append(": ");
        text.append(self.token_type.name());
        text.append(" ");
        text.append(self.lexeme.as_str());
        assert(text@ =~= display(self@));
        text
    }

    /// The kind of the token.
    pub fn token_type(&self) -> (kind: TokenType)
        ensures
            kind == self@.kind,
    {
        self.token_type
    }

    /// The text that the token matched; empty where its kind fixes it.
    pub fn lexeme(&self) -> (text: &str)
        ensures
            text@ == self@.lexeme,
    {
        self.lexeme.as_str()
    }

    /// The line on which the token begins.
    pub fn line(&self) -> (line: usize)
        ensures
            line == self@.line,
    {
        self.line
    }
}

} // verus!
