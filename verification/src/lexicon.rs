//! What a scan produces, stated over sequences of characters.
//!
//! Positions are character offsets into the source text. Lines are numbered
//! from 1, and a line ends with its `'\n'`.

use vstd::prelude::*;
use crate::diagnostic::DiagnosticView;
use crate::token::{TokenType, TokenView};

verus! {

pub open spec fn is_digit(c: char) -> bool {
    '0' <= c && c <= '9'
}

/// ASCII letters and the underscore: the characters that may begin a word.
pub open spec fn is_alpha(c: char) -> bool {
    ('a' <= c && c <= 'z') || ('A' <= c && c <= 'Z') || c == '_'
}

/// The characters between lexemes: space, tab, carriage return, line feed.
pub open spec fn is_blank(c: char) -> bool {
    c == ' ' || c == '\t' || c == '\r' || c == '\n'
}

/// `src` holds nothing but blanks.
pub open spec fn all_blank(src: Seq<char>) -> bool {
    forall|i: int| 0 <= i < src.len() ==> is_blank(#[trigger] src[i])
}

/// A set of characters that a lexeme may run over.
#[derive(Debug, Clone, Copy, PartialEq, Eq, Structural)]
pub enum CharClass {
    /// `0` to `9`.
    Digit,
    /// Letters, digits and the underscore.
    Word,
    /// Everything but the line feed: the body of a comment.
    CommentBody,
    /// Everything but the double quote: the body of a string literal.
    StringBody,
}

impl CharClass {
    pub open spec fn contains(self, c: char) -> bool {
        match self {
            CharClass::Digit => is_digit(c),
            CharClass::Word => is_alpha(c) || is_digit(c),
            CharClass::CommentBody => c != '\n',
            CharClass::StringBody => c != '"',
        }
    }
}

/// How many characters from `from` on belong to `class`, up to the first one
/// that does not, or the end of the text.
pub open spec fn run_len(src: Seq<char>, from: int, class: CharClass) -> nat
    decreases src.len() - from,
{
    if 0 <= from < src.len() && class.contains(src[from]) {
        1 + run_len(src, from + 1, class)
    } else {
        0
    }
}

/// The number of line feeds among the first `pos` characters.
pub open spec fn newlines_before(src: Seq<char>, pos: int) -> nat
    decreases pos,
{
    if pos <= 0 {
        0
    } else {
        newlines_before(src, pos - 1) + if src[pos - 1] == '\n' {
            1nat
        } else {
            0nat
        }
    }
}

/// The line on which position `pos` lies.
pub open spec fn line_at(src: Seq<char>, pos: int) -> nat {
    1 + newlines_before(src, pos)
}

/// The kind that a reserved word stands for; `None` for any other text.
/// The match is exact: no prefix, no other case.
pub open spec fn keyword_kind(text: Seq<char>) -> Option<TokenType> {
    if text == "and"@ {
        Some(TokenType::AND)
    } else if text == "or"@ {
        Some(TokenType::OR)
    } else if text == "true"@ {
        Some(TokenType::TRUE)
    } else if text == "false"@ {
        Some(TokenType::FALSE)
    } else if text == "if"@ {
        Some(TokenType::IF)
    } else if text == "else"@ {
        Some(TokenType::ELSE)
    } else if text == "while"@ {
        Some(TokenType::WHILE)
    } else if text == "for"@ {
        Some(TokenType::FOR)
    } else if text == "return"@ {
        Some(TokenType::RETURN)
    } else if text == "class"@ {
        Some(TokenType::CLASS)
    } else if text == "fun"@ {
        Some(TokenType::FUN)
    } else if text == "this"@ {
        Some(TokenType::THIS)
    } else if text == "super"@ {
        Some(TokenType::SUPER)
    } else if text == "print"@ {
        Some(TokenType::PRINT)
    } else if text == "nil"@ {
        Some(TokenType::NIL)
    } else if text == "var"@ {
        Some(TokenType::VAR)
    } else {
        None
    }
}

/// What one recognition step yields: how far it moves, and at most one of a
/// token and a diagnostic.
pub struct Step {
    /// Characters consumed; never 0.
    pub width: nat,
    pub token: Option<TokenView>,
    pub diagnostic: Option<DiagnosticView>,
}

/// A step over `width` characters that yields nothing.
pub open spec fn skip(width: nat) -> Step {
    Step { width, token: None, diagnostic: None }
}

/// A step that yields a token whose spelling its kind fixes.
pub open spec fn fixed(src: Seq<char>, start: int, width: nat, kind: TokenType) -> Step {
    Step {
        width,
        token: Some(TokenView { kind, lexeme: Seq::empty(), line: line_at(src, start) }),
        diagnostic: None,
    }
}

/// A step that yields a token carrying the text it matched.
pub open spec fn spelled(src: Seq<char>, start: int, width: nat, kind: TokenType) -> Step {
    Step {
        width,
        token: Some(
            TokenView {
                kind,
                lexeme: src.subrange(start, start + width),
                line: line_at(src, start),
            },
        ),
        diagnostic: None,
    }
}

/// `one` when the character after `start` is not `=`, else `two` over both.
pub open spec fn with_equals(src: Seq<char>, start: int, one: TokenType, two: TokenType) -> Step {
    if start + 1 < src.len() && src[start + 1] == '=' {
        fixed(src, start, 2, two)
    } else {
        fixed(src, start, 1, one)
    }
}

/// A slash: a comment up to the end of the line when a second slash follows,
/// else the operator.
pub open spec fn slash_step(src: Seq<char>, start: int) -> Step {
    if start + 1 < src.len() && src[start + 1] == '/' {
        skip(2 + run_len(src, start + 2, CharClass::CommentBody))
    } else {
        fixed(src, start, 1, TokenType::Slash)
    }
}

/// A string literal: from the opening quote through the next quote. Without
/// one, the rest of the text is consumed and reported.
pub open spec fn string_step(src: Seq<char>, start: int) -> Step {
    let body = run_len(src, start + 1, CharClass::StringBody);
    if start + 1 + body < src.len() {
        spelled(src, start, body + 2, TokenType::STRING)
    } else {
        Step {
            width: 1 + body,
            token: None,
            diagnostic: Some(
                DiagnosticView::UnterminatedString { line: line_at(src, src.len() as int) },
            ),
        }
    }
}

/// The width of the number that begins at `start`: digits, then a dot and
/// more digits only where a digit follows the dot.
pub open spec fn number_width(src: Seq<char>, start: int) -> nat {
    let whole = 1 + run_len(src, start + 1, CharClass::Digit);
    let dot = start + whole;
    if dot + 1 < src.len() && src[dot] == '.' && is_digit(src[dot + 1]) {
        whole + 1 + run_len(src, dot + 1, CharClass::Digit)
    } else {
        whole
    }
}

/// A word: a keyword where the whole of it is reserved, else an identifier.
pub open spec fn word_step(src: Seq<char>, start: int) -> Step {
    let width = 1 + run_len(src, start + 1, CharClass::Word);
    match keyword_kind(src.subrange(start, start + width)) {
        Some(kind) => fixed(src, start, width, kind),
        None => spelled(src, start, width, TokenType::IDENTIFIER),
    }
}

/// The recognition step at `start`, decided by the character there.
pub open spec fn step_at(src: Seq<char>, start: int) -> Step
    recommends
        0 <= start < src.len(),
{
    let c = src[start];
    if c == '(' {
        fixed(src, start, 1, TokenType::LeftParen)
    } else if c == ')' {
        fixed(src, start, 1, TokenType::RightParen)
    } else if c == '{' {
        fixed(src, start, 1, TokenType::LeftBrace)
    } else if c == '}' {
        fixed(src, start, 1, TokenType::RightBrace)
    } else if c == ',' {
        fixed(src, start, 1, TokenType::Comma)
    } else if c == '.' {
        fixed(src, start, 1, TokenType::Dot)
    } else if c == '-' {
        fixed(src, start, 1, TokenType::Minus)
    } else if c == '+' {
        fixed(src, start, 1, TokenType::Plus)
    } else if c == ';' {
        fixed(src, start, 1, TokenType::Semicolon)
    } else if c == '*' {
        fixed(src, start, 1, TokenType::Star)
    } else if c == '/' {
        slash_step(src, start)
    } else if c == '!' {
        with_equals(src, start, TokenType::Bang, TokenType::BangEqual)
    } else if c == '=' {
        with_equals(src, start, TokenType::Equal, TokenType::EqualEqual)
    } else if c == '<' {
        with_equals(src, start, TokenType::Less, TokenType::LessEqual)
    } else if c == '>' {
        with_equals(src, start, TokenType::Greater, TokenType::GreaterEqual)
    } else if is_blank(c) {
        skip(1)
    } else if c == '"' {
        string_step(src, start)
    } else if is_digit(c) {
        spelled(src, start, number_width(src, start), TokenType::NUMBER)
    } else if is_alpha(c) {
        word_step(src, start)
    } else {
        Step {
            width: 1,
            token: None,
            diagnostic: Some(
                DiagnosticView::UnexpectedCharacter { character: c, line: line_at(src, start) },
            ),
        }
    }
}

/// The tokens and diagnostics of a scan, each in the order of the text.
pub struct Scan {
    pub tokens: Seq<TokenView>,
    pub diagnostics: Seq<DiagnosticView>,
}

/// Nothing, or the one value.
pub open spec fn optional<A>(value: Option<A>) -> Seq<A> {
    match value {
        Some(a) => seq![a],
        None => Seq::empty(),
    }
}

/// What scanning yields from position `pos` to the end of the text.
pub open spec fn scan_from(src: Seq<char>, pos: int) -> Scan
    decreases src.len() - pos,
    via scan_from_terminates
{
    if 0 <= pos < src.len() {
        let step = step_at(src, pos);
        let rest = scan_from(src, pos + step.width);
        Scan {
            tokens: optional(step.token) + rest.tokens,
            diagnostics: optional(step.diagnostic) + rest.diagnostics,
        }
    } else {
        Scan { tokens: Seq::empty(), diagnostics: Seq::empty() }
    }
}

#[via_fn]
proof fn scan_from_terminates(src: Seq<char>, pos: int) {
    if 0 <= pos < src.len() {
        lemma_step_bounds(src, pos);
    }
}

/// A run stays inside the text, holds only characters of its class, and
/// stops at the first character that is not of the class.
pub proof fn lemma_run(src: Seq<char>, from: int, class: CharClass)
    requires
        0 <= from <= src.len(),
    ensures
        from + run_len(src, from, class) <= src.len(),
        forall|i: int|
            from <= i < from + run_len(src, from, class) ==> class.contains(#[trigger] src[i]),
        from + run_len(src, from, class) < src.len() ==> !class.contains(
            src[from + run_len(src, from, class)],
        ),
    decreases src.len() - from,
{
    if from < src.len() && class.contains(src[from]) {
        lemma_run(src, from + 1, class);
    }
}

/// Between two positions there are no more line feeds than characters.
pub proof fn lemma_newlines_between(src: Seq<char>, from: int, to: int)
    requires
        0 <= from <= to,
    ensures
        newlines_before(src, from) <= newlines_before(src, to),
        newlines_before(src, to) - newlines_before(src, from) <= to - from,
    decreases to - from,
{
    if from < to {
        lemma_newlines_between(src, from, to - 1);
    }
}

/// A stretch without a line feed leaves the line as it is.
pub proof fn lemma_same_line(src: Seq<char>, from: int, to: int)
    requires
        0 <= from <= to,
        forall|i: int| from <= i < to ==> #[trigger] src[i] != '\n',
    ensures
        newlines_before(src, to) == newlines_before(src, from),
    decreases to - from,
{
    if from < to {
        lemma_same_line(src, from, to - 1);
    }
}

/// Every step consumes at least one character and ends inside the text.
pub proof fn lemma_step_bounds(src: Seq<char>, start: int)
    requires
        0 <= start < src.len(),
    ensures
        1 <= step_at(src, start).width,
        start + step_at(src, start).width <= src.len(),
{
    lemma_run(src, start + 1, CharClass::Digit);
    lemma_run(src, start + 1, CharClass::Word);
    lemma_run(src, start + 1, CharClass::StringBody);
    if start + 1 < src.len() {
        lemma_run(src, start + 2, CharClass::CommentBody);
    }
    let dot = start + 1 + run_len(src, start + 1, CharClass::Digit);
    if dot + 1 < src.len() {
        lemma_run(src, dot + 1, CharClass::Digit);
    }
}

/// What scanning the whole of `src` yields.
pub open spec fn scan(src: Seq<char>) -> Scan {
    scan_from(src, 0)
}

} // verus!
