//! Non-fatal records of text that the scanner could not turn into a token.

use vstd::prelude::*;
use vstd::string::StringExecFns;
use crate::text::{decimal, push_decimal};

verus! {

/// What a diagnostic is, as a mathematical value.
pub enum DiagnosticView {
    /// A string literal was opened and the text ended before it was closed;
    /// `line` is the line on which the text ends.
    UnterminatedString { line: nat },
    /// `character` on line `line` begins no lexeme.
    UnexpectedCharacter { character: char, line: nat },
}

/// A recognition failure, with the line on which it was met.
#[derive(Debug, Clone, Copy, PartialEq, Eq, Structural)]
pub enum Diagnostic {
    UnterminatedString { line: usize },
    UnexpectedCharacter { character: char, line: usize },
}

impl View for Diagnostic {
    type V = DiagnosticView;

    open spec fn view(&self) -> DiagnosticView {
        match *self {
            Diagnostic::UnterminatedString { line } => DiagnosticView::UnterminatedString {
                line: line as nat,
            },
            Diagnostic::UnexpectedCharacter { character, line } => {
                DiagnosticView::UnexpectedCharacter { character, line: line as nat }
            },
        }
    }
}

/// The line of text that tells of a diagnostic.
pub open spec fn message(diagnostic: DiagnosticView) -> Seq<char> {
    match diagnostic {
        DiagnosticView::UnterminatedString { line } => "Unterminated string at line "@ + decimal(
            line,
        ),
        DiagnosticView::UnexpectedCharacter { character, line } => "Unexpected token "@.push(
            character,
        ) + " at line "@ + decimal(line),
    }
}

impl Diagnostic {
    /// The line on which the offending text was met.
    pub fn line(&self) -> (line: usize)
        ensures
            line == match self@ {
                DiagnosticView::UnterminatedString { line } => line,
                DiagnosticView::UnexpectedCharacter { line, .. } => line,
            },
    {
        match *self {
            Diagnostic::UnterminatedString { line } => line,
            Diagnostic::UnexpectedCharacter { line, .. } => line,
        }
    }

    /// The line of text that tells of the diagnostic.
    pub fn message(&self) -> (text: String)
        ensures
            text@ == message(self@),
    {
        let mut text = String::new();
        match *self {
            Diagnostic::UnterminatedString { line } => {
                text.append("Unterminated string at line ");
                push_decimal(&mut text, line);
            },
            Diagnostic::UnexpectedCharacter { character, line } => {
                text.append("Unexpected token ");
                text.push(character);
                text.append(" at line ");
                push_decimal(&mut text, line);
            },
        }
        assert(text@ =~= message(self@));
        text
    }
}

} // verus!
