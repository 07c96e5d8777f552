//! The scanner: a cursor over the source text and the output built so far.

use vstd::prelude::*;
use vstd::slice::slice_subrange;
use crate::diagnostic::{Diagnostic, DiagnosticView};
use crate::keywords::keyword;
use crate::laws::{lemma_blank_text, lemma_lines_from};
use crate::lexicon::{
    all_blank, fixed, is_alpha, is_digit, lemma_newlines_between, lemma_run, lemma_same_line,
    newlines_before, number_width, optional, run_len, scan, scan_from, slash_step, spelled,
    step_at, string_step, with_equals, word_step, CharClass, Step,
};
use crate::text::{from_chars, to_chars};
use crate::token::{Token, TokenType, TokenView};

verus! {

/// The views of `tokens`, in order.
pub open spec fn token_views(tokens: Seq<Token>) -> Seq<TokenView> {
    tokens.map_values(|t: Token| t@)
}

/// The views of `diagnostics`, in order.
pub open spec fn diagnostic_views(diagnostics: Seq<Diagnostic>) -> Seq<DiagnosticView> {
    diagnostics.map_values(|d: Diagnostic| d@)
}

/// A scanner over one source text.
///
/// Lines are counted by the line feeds consumed: the line of a position is
/// one more than the number of line feeds before it, so the counters kept
/// here never exceed the length of the text.
pub struct Scanner {
    source: Vec<char>,
    tokens: Vec<Token>,
    diagnostics: Vec<Diagnostic>,
    /// Where the lexeme being recognised begins.
    start: usize,
    /// The next character to consume.
    current: usize,
    /// Line feeds before `start`.
    start_breaks: usize,
    /// Line feeds before `current`.
    breaks: usize,
}

impl Scanner {
    /// The source text.
    pub closed spec fn source(&self) -> Seq<char> {
        self.source@
    }

    /// The tokens produced so far.
    pub closed spec fn produced(&self) -> Seq<TokenView> {
        token_views(self.tokens@)
    }

    /// The diagnostics recorded so far.
    pub closed spec fn reported(&self) -> Seq<DiagnosticView> {
        diagnostic_views(self.diagnostics@)
    }

    /// The cursor lies inside the text, the start of the lexeme not behind
    /// the position to consume next.
    pub closed spec fn well_formed(&self) -> bool {
        self.start <= self.current <= self.source@.len()
    }

    /// The whole text has been scanned: the output is that of `scan`.
    pub open spec fn finished(&self) -> bool {
        &&& self.produced() == scan(self.source()).tokens
        &&& self.reported() == scan(self.source()).diagnostics
    }

    /// `self` has the text, the cursor and the line counters of `other`.
    spec fn rests_on(&self, other: &Scanner) -> bool {
        &&& self.source == other.source
        &&& self.start == other.start
        &&& self.current == other.current
        &&& self.start_breaks == other.start_breaks
        &&& self.breaks == other.breaks
    }

    /// `self` differs from `other` in the position of the cursor at most.
    spec fn moved_from(&self, other: &Scanner) -> bool {
        &&& self.source == other.source
        &&& self.tokens == other.tokens
        &&& self.diagnostics == other.diagnostics
        &&& self.start == other.start
        &&& self.start_breaks == other.start_breaks
        &&& self.breaks == other.breaks
    }

    fn is_at_end(&self) -> (at_end: bool)
        ensures
            at_end == (self.current >= self.source@.len()),
    {
        self.current >= self.source.len()
    }

    fn advance(&mut self)
        requires
            old(self).well_formed(),
            old(self).current < old(self).source@.len(),
        ensures
            final(self).well_formed(),
            final(self).moved_from(old(self)),
            final(self).current == old(self).current + 1,
    {
        assert(self.source.len() == self.source@.len());
        self.current += 1;
    }

    fn peek(&self) -> (next: Option<char>)
        ensures
            next == if self.current < self.source@.len() {
                Some(self.source@[self.current as int])
            } else {
                None
            },
    {
        if self.current < self.source.len() {
            Some(self.source[self.current])
        } else {
            None
        }
    }

    fn peek_next(&self, next: usize) -> (found: Option<char>)
        requires
            self.well_formed(),
        ensures
            found == if self.current + next < self.source@.len() {
                Some(self.source@[self.current + next])
            } else {
                None
            },
    {
        if next < self.source.len() - self.current {
            Some(self.source[self.current + next])
        } else {
            None
        }
    }

    fn advance_match(&mut self, expect: char) -> (matched: bool)
        requires
            old(self).well_formed(),
        ensures
            final(self).well_formed(),
            matched == (old(self).current < old(self).source@.len() && old(self).source@[old(
                self,
            ).current as int] == expect),
            final(self).moved_from(old(self)),
            final(self).current == old(self).current + if matched {
                1int
            } else {
                0int
            },
    {
        if self.is_at_end() || self.source[self.current] != expect {
            return false;
        }
        self.advance();
        true
    }

    fn is_digit(c: &char) -> (digit: bool)
        ensures
            digit == is_digit(*c),
    {
        '0' <= *c && *c <= '9'
    }

    fn is_alpha(c: &char) -> (alpha: bool)
        ensures
            alpha == is_alpha(*c),
    {
        ('a' <= *c && *c <= 'z') || ('A' <= *c && *c <= 'Z') || *c == '_'
    }

    fn belongs(class: CharClass, c: &char) -> (inside: bool)
        ensures
            inside == class.contains(*c),
    {
        match class {
            CharClass::Digit => Self::is_digit(c),
            CharClass::Word => Self::is_alpha(c) || Self::is_digit(c),
            CharClass::CommentBody => *c != '\n',
            CharClass::StringBody => *c != '"',
        }
    }

    /// Moves the cursor over the run of `class` that begins at it.
    fn advance_while_true(&mut self, class: CharClass)
        requires
            old(self).well_formed(),
        ensures
            final(self).well_formed(),
            final(self).moved_from(old(self)),
            final(self).current == old(self).current + run_len(
                old(self).source@,
                old(self).current as int,
                class,
            ),
    {
        let ghost before = *self;
        loop
            invariant
                self.moved_from(&before),
                self.well_formed(),
                before.current <= self.current,
                before.current + run_len(before.source@, before.current as int, class)
                    == self.current + run_len(self.source@, self.current as int, class),
            ensures
                run_len(self.source@, self.current as int, class) == 0,
            decreases self.source@.len() - self.current,
        {
            let next = self.peek();
            if let Some(next) = next {
                if Self::belongs(class, &next) {
                    self.advance();
                    continue;
                }
            }
            break;
        }
    }

    fn add_token(&mut self, token_type: TokenType)
        requires
            old(self).start_breaks < usize::MAX,
        ensures
            final(self).rests_on(old(self)),
            final(self).diagnostics == old(self).diagnostics,
            final(self).produced() == old(self).produced().push(
                TokenView {
                    kind: token_type,
                    lexeme: Seq::empty(),
                    line: (old(self).start_breaks + 1) as nat,
                },
            ),
    {
        self.add_token_with_lexeme(token_type, String::new());
    }

    fn add_token_with_lexeme(&mut self, token_type: TokenType, lexeme: String)
        requires
            old(self).start_breaks < usize::MAX,
        ensures
            final(self).rests_on(old(self)),
            final(self).diagnostics == old(self).diagnostics,
            final(self).produced() == old(self).produced().push(
                TokenView {
                    kind: token_type,
                    lexeme: lexeme@,
                    line: (old(self).start_breaks + 1) as nat,
                },
            ),
    {
        let token = Token::new(token_type, lexeme, self.start_breaks + 1);
        self.tokens.push(token);
        assert(self.produced() =~= old(self).produced().push(token@));
    }

    fn report(&mut self, diagnostic: Diagnostic)
        ensures
            final(self).rests_on(old(self)),
            final(self).tokens == old(self).tokens,
            final(self).reported() == old(self).reported().push(diagnostic@),
    {
        self.diagnostics.push(diagnostic);
        assert(self.reported() =~= old(self).reported().push(diagnostic@));
    }

    /// The text between the start of the lexeme and the cursor.
    fn lexeme_text(&self) -> (text: String)
        requires
            self.well_formed(),
        ensures
            text@ == self.source@.subrange(self.start as int, self.current as int),
    {
        from_chars(slice_subrange(self.source.as_slice(), self.start, self.current))
    }

    /// The cursor stands at the start of a lexeme, inside the text.
    spec fn ready(&self) -> bool {
        &&& self.well_formed()
        &&& self.start == self.current
        &&& self.current < self.source@.len()
        &&& self.start_breaks == newlines_before(self.source@, self.start as int)
        &&& self.breaks == self.start_breaks
    }

    /// The first character of the lexeme, which is no line feed, has been
    /// consumed and nothing more.
    spec fn opened(&self) -> bool {
        &&& self.well_formed()
        &&& self.start + 1 == self.current
        &&& self.source@[self.start as int] != '\n'
        &&& self.start_breaks == newlines_before(self.source@, self.start as int)
        &&& self.breaks == self.start_breaks
    }

    /// `self` is what `before` becomes by `step`, taken at the start of the
    /// lexeme.
    spec fn stepped(&self, before: &Scanner, step: Step) -> bool {
        &&& self.source == before.source
        &&& self.start == before.start
        &&& self.start_breaks == before.start_breaks
        &&& self.current == before.start + step.width
        &&& self.well_formed()
        &&& self.breaks == newlines_before(self.source@, self.current as int)
        &&& self.produced() =~= before.produced() + optional(step.token)
        &&& self.reported() =~= before.reported() + optional(step.diagnostic)
    }

    /// Emits `one`, or `two` where an equals sign follows and is consumed.
    fn scan_operator(&mut self, one: TokenType, two: TokenType)
        requires
            old(self).opened(),
        ensures
            final(self).stepped(
                old(self),
                with_equals(old(self).source@, old(self).start as int, one, two),
            ),
    {
        proof {
            lemma_newlines_between(self.source@, 0, self.start as int);
        }
        if self.advance_match('=') {
            self.add_token(two);
        } else {
            self.add_token(one);
        }
        proof {
            lemma_same_line(self.source@, self.start as int, self.current as int);
        }
    }

    /// After a slash: skips a comment to the end of its line, or emits the
    /// operator.
    fn scan_slash(&mut self)
        requires
            old(self).opened(),
        ensures
            final(self).stepped(old(self), slash_step(old(self).source@, old(self).start as int)),
    {
        proof {
            lemma_newlines_between(self.source@, 0, self.start as int);
        }
        if self.advance_match('/') {
            self.advance_while_true(CharClass::CommentBody);
            proof {
                lemma_run(self.source@, self.start + 2, CharClass::CommentBody);
                lemma_same_line(self.source@, self.start as int, self.current as int);
            }
        } else {
            self.add_token(TokenType::Slash);
            proof {
                lemma_same_line(self.source@, self.start as int, self.current as int);
            }
        }
    }

    /// After an opening quote: consumes the literal through its closing
    /// quote and emits it, or reports that the text ended first.
    fn scan_string(&mut self)
        requires
            old(self).opened(),
        ensures
            final(self).stepped(old(self), string_step(old(self).source@, old(self).start as int)),
    {
        let ghost src = self.source@;
        let ghost body = run_len(src, self.start + 1, CharClass::StringBody);
        proof {
            lemma_run(src, self.start + 1, CharClass::StringBody);
            lemma_same_line(src, self.start as int, self.current as int);
        }
        while self.peek() != Some('"') && !self.is_at_end()
            invariant
                self.source == old(self).source,
                self.tokens == old(self).tokens,
                self.diagnostics == old(self).diagnostics,
                self.start == old(self).start,
                self.start_breaks == old(self).start_breaks,
                src == self.source@,
                self.start + 1 <= self.current <= src.len(),
                self.breaks == newlines_before(src, self.current as int),
                self.start + 1 + body == self.current + run_len(
                    src,
                    self.current as int,
                    CharClass::StringBody,
                ),
            decreases src.len() - self.current,
        {
            proof {
                lemma_newlines_between(src, 0, self.current as int);
                assert(self.source.len() == src.len());
            }
            if self.peek() == Some('\n') {
                self.breaks += 1;
            }
            self.advance();
        }
        proof {
            lemma_newlines_between(src, 0, self.start as int);
            lemma_newlines_between(src, self.start + 1, self.current as int);
        }
        if self.is_at_end() {
            self.report(Diagnostic::UnterminatedString { line: self.breaks + 1 });
            return;
        }
        self.advance();
        let text = self.lexeme_text();
        self.add_token_with_lexeme(TokenType::STRING, text);
    }

    /// After a first digit: consumes the rest of the number and emits it.
    fn scan_number(&mut self)
        requires
            old(self).opened(),
            is_digit(old(self).source@[old(self).start as int]),
        ensures
            final(self).stepped(
                old(self),
                spelled(
                    old(self).source@,
                    old(self).start as int,
                    number_width(old(self).source@, old(self).start as int),
                    TokenType::NUMBER,
                ),
            ),
    {
        let ghost src = self.source@;
        proof {
            lemma_newlines_between(src, 0, self.start as int);
            lemma_run(src, self.start + 1, CharClass::Digit);
        }
        self.advance_while_true(CharClass::Digit);
        if self.peek() == Some('.') {
            if let Some(after) = self.peek_next(1) {
                if Self::is_digit(&after) {
                    self.advance();
                    proof {
                        lemma_run(src, self.current as int, CharClass::Digit);
                    }
                    self.advance_while_true(CharClass::Digit);
                }
            }
        }
        proof {
            lemma_same_line(src, self.start as int, self.current as int);
        }
        let text = self.lexeme_text();
        self.add_token_with_lexeme(TokenType::NUMBER, text);
    }

    /// After a first letter or underscore: consumes the rest of the word and
    /// emits its keyword, or an identifier.
    fn scan_word(&mut self)
        requires
            old(self).opened(),
            is_alpha(old(self).source@[old(self).start as int]),
        ensures
            final(self).stepped(old(self), word_step(old(self).source@, old(self).start as int)),
    {
        let ghost src = self.source@;
        proof {
            lemma_newlines_between(src, 0, self.start as int);
            lemma_run(src, self.start + 1, CharClass::Word);
        }
        self.advance_while_true(CharClass::Word);
        proof {
            lemma_same_line(src, self.start as int, self.current as int);
        }
        let found = keyword(slice_subrange(self.source.as_slice(), self.start, self.current));
        if let Some(token_type) = found {
            self.add_token(token_type);
        } else {
            let text = self.lexeme_text();
            self.add_token_with_lexeme(TokenType::IDENTIFIER, text);
        }
    }

    /// Emits a token of one character.
    fn scan_single(&mut self, token_type: TokenType)
        requires
            old(self).opened(),
        ensures
            final(self).stepped(
                old(self),
                fixed(old(self).source@, old(self).start as int, 1, token_type),
            ),
    {
        proof {
            lemma_newlines_between(self.source@, 0, self.start as int);
        }
        self.add_token(token_type);
    }

    /// Recognises the lexeme at the cursor and moves past it.
    fn scan_token(&mut self)
        requires
            old(self).ready(),
        ensures
            final(self).stepped(old(self), step_at(old(self).source@, old(self).start as int)),
    {
        let c = self.source[self.current];
        self.advance();
        match c {
            '(' => self.scan_single(TokenType::LeftParen),
            ')' => self.scan_single(TokenType::RightParen),
            '{' => self.scan_single(TokenType::LeftBrace),
            '}' => self.scan_single(TokenType::RightBrace),
            '/' => self.scan_slash(),
            '*' => self.scan_single(TokenType::Star),
            '+' => self.scan_single(TokenType::Plus),
            '-' => self.scan_single(TokenType::Minus),
            ',' => self.scan_single(TokenType::Comma),
            '.' => self.scan_single(TokenType::Dot),
            ';' => self.scan_single(TokenType::Semicolon),
            '>' => self.scan_operator(TokenType::Greater, TokenType::GreaterEqual),
            '<' => self.scan_operator(TokenType::Less, TokenType::LessEqual),
            '!' => self.scan_operator(TokenType::Bang, TokenType::BangEqual),
            '=' => self.scan_operator(TokenType::Equal, TokenType::EqualEqual),
            '"' => self.scan_string(),
            ' ' | '\r' | '\t' => {},
            '\n' => {
                proof {
                    lemma_newlines_between(self.source@, 0, self.start as int);
                    assert(self.source.len() == self.source@.len());
                }
                self.breaks += 1;
            },
            _ => {
                if Self::is_digit(&c) {
                    self.scan_number();
                } else if Self::is_alpha(&c) {
                    self.scan_word();
                } else {
                    proof {
                        lemma_newlines_between(self.source@, 0, self.start as int);
                    }
                    self.report(
                        Diagnostic::UnexpectedCharacter {
                            character: c,
                            line: self.start_breaks + 1,
                        },
                    );
                }
            },
        }
    }

    /// Scans from the cursor to the end of the text.
    fn scan_tokens(&mut self)
        requires
            old(self).well_formed(),
            old(self).breaks == newlines_before(old(self).source@, old(self).current as int),
        ensures
            final(self).well_formed(),
            final(self).source == old(self).source,
            final(self).current == final(self).source@.len(),
            final(self).produced() == old(self).produced() + scan_from(
                old(self).source@,
                old(self).current as int,
            ).tokens,
            final(self).reported() == old(self).reported() + scan_from(
                old(self).source@,
                old(self).current as int,
            ).diagnostics,
    {
        let ghost src = self.source@;
        let ghost rest = scan_from(src, self.current as int);
        while !self.is_at_end()
            invariant
                self.source == old(self).source,
                self.source@ == src,
                self.well_formed(),
                self.breaks == newlines_before(src, self.current as int),
                old(self).produced() + rest.tokens =~= self.produced() + scan_from(
                    src,
                    self.current as int,
                ).tokens,
                old(self).reported() + rest.diagnostics =~= self.reported() + scan_from(
                    src,
                    self.current as int,
                ).diagnostics,
            decreases src.len() - self.current,
        {
            self.start = self.current;
            self.start_breaks = self.breaks;
            self.scan_token();
        }
    }

    /// Scans `source` from its first character to its last.
    pub fn new(source: String) -> (scanner: Scanner)
        ensures
            scanner.well_formed(),
            scanner.source() == source@,
            scanner.finished(),
            all_blank(source@) ==> scanner.produced().len() == 0 && scanner.reported().len() == 0,
            forall|i: int, j: int|
                0 <= i <= j < scanner.produced().len() ==> scanner.produced()[i].line
                    <= scanner.produced()[j].line,
    {
        let mut scanner = Scanner {
            source: to_chars(source.as_str()),
            tokens: Vec::new(),
            diagnostics: Vec::new(),
            start: 0,
            current: 0,
            start_breaks: 0,
            breaks: 0,
        };
        scanner.scan_tokens();
        proof {
            if all_blank(source@) {
                lemma_blank_text(source@);
            }
            lemma_lines_from(source@, 0);
        }
        scanner
    }

    /// The tokens of the text, in its order.
    pub fn tokens(&self) -> (tokens: &Vec<Token>)
        ensures
            token_views(tokens@) == self.produced(),
    {
        &self.tokens
    }

    /// The diagnostics of the text, in the order in which they were met.
    pub fn diagnostics(&self) -> (diagnostics: &Vec<Diagnostic>)
        ensures
            diagnostic_views(diagnostics@) == self.reported(),
    {
        &self.diagnostics
    }
}

} // verus!
