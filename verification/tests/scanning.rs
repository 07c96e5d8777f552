use rlox::diagnostic::Diagnostic;
use rlox::scanner::Scanner;
use rlox::token::{Token, TokenType};

fn scan(text: &str) -> Scanner {
    Scanner::new(text.to_string())
}

fn summary(scanner: &Scanner) -> Vec<(TokenType, String, usize)> {
    scanner
        .tokens()
        .iter()
        .map(|t: &Token| (t.token_type(), t.lexeme().to_string(), t.line()))
        .collect()
}

fn kinds(text: &str) -> Vec<TokenType> {
    scan(text).tokens().iter().map(|t: &Token| t.token_type()).collect()
}

fn entry(kind: TokenType, lexeme: &str, line: usize) -> (TokenType, String, usize) {
    (kind, lexeme.to_string(), line)
}

#[test]
fn empty_text_yields_nothing() {
    let scanner = scan("");
    assert!(scanner.tokens().is_empty());
    assert!(scanner.diagnostics().is_empty());
}

#[test]
fn blank_text_yields_nothing() {
    let scanner = scan(" \t\r\n  \n\n\t ");
    assert!(scanner.tokens().is_empty());
    assert!(scanner.diagnostics().is_empty());
}

#[test]
fn sum_of_two_numbers() {
    let scanner = scan("1+2");
    assert_eq!(
        summary(&scanner),
        vec![
            entry(TokenType::NUMBER, "1", 1),
            entry(TokenType::Plus, "", 1),
            entry(TokenType::NUMBER, "2", 1),
        ]
    );
    assert!(scanner.diagnostics().is_empty());
}

#[test]
fn comment_is_skipped_and_line_counted() {
    let scanner = scan("// c\n42");
    assert_eq!(summary(&scanner), vec![entry(TokenType::NUMBER, "42", 2)]);
    assert!(scanner.diagnostics().is_empty());
}

#[test]
fn comment_at_end_of_text() {
    let scanner = scan("1 // trailing");
    assert_eq!(summary(&scanner), vec![entry(TokenType::NUMBER, "1", 1)]);
    assert!(scanner.diagnostics().is_empty());
}

#[test]
fn lone_slash_is_an_operator() {
    assert_eq!(kinds("/"), vec![TokenType::Slash]);
    assert_eq!(
        kinds("6/ 3"),
        vec![TokenType::NUMBER, TokenType::Slash, TokenType::NUMBER]
    );
}

#[test]
fn string_lexeme_keeps_its_quotes() {
    let scanner = scan("\"abc\"");
    assert_eq!(summary(&scanner), vec![entry(TokenType::STRING, "\"abc\"", 1)]);
    assert!(scanner.diagnostics().is_empty());
}

#[test]
fn empty_string_literal() {
    let scanner = scan("\"\"");
    assert_eq!(summary(&scanner), vec![entry(TokenType::STRING, "\"\"", 1)]);
}

#[test]
fn unterminated_string_is_reported() {
    let scanner = scan("\"oops");
    assert!(scanner.tokens().is_empty());
    assert_eq!(
        scanner.diagnostics(),
        &vec![Diagnostic::UnterminatedString { line: 1 }]
    );
}

#[test]
fn unterminated_string_is_reported_on_the_last_line() {
    let scanner = scan("1\n\"a\nb\n");
    assert_eq!(summary(&scanner), vec![entry(TokenType::NUMBER, "1", 1)]);
    assert_eq!(
        scanner.diagnostics(),
        &vec![Diagnostic::UnterminatedString { line: 4 }]
    );
}

#[test]
fn string_over_several_lines() {
    let scanner = scan("\"a\nb\" x\n\"c\"");
    assert_eq!(
        summary(&scanner),
        vec![
            entry(TokenType::STRING, "\"a\nb\"", 1),
            entry(TokenType::IDENTIFIER, "x", 2),
            entry(TokenType::STRING, "\"c\"", 3),
        ]
    );
}

#[test]
fn number_with_fraction() {
    let scanner = scan("12.5");
    assert_eq!(summary(&scanner), vec![entry(TokenType::NUMBER, "12.5", 1)]);
    assert!(scanner.diagnostics().is_empty());
}

#[test]
fn number_leaves_a_trailing_dot() {
    let scanner = scan("12.");
    assert_eq!(
        summary(&scanner),
        vec![entry(TokenType::NUMBER, "12", 1), entry(TokenType::Dot, "", 1)]
    );
    assert!(scanner.diagnostics().is_empty());
}

#[test]
fn number_takes_one_fraction_only() {
    let scanner = scan("1.2.3");
    assert_eq!(
        summary(&scanner),
        vec![
            entry(TokenType::NUMBER, "1.2", 1),
            entry(TokenType::Dot, "", 1),
            entry(TokenType::NUMBER, "3", 1),
        ]
    );
}

#[test]
fn number_before_a_method_call() {
    let scanner = scan("7.abs");
    assert_eq!(
        summary(&scanner),
        vec![
            entry(TokenType::NUMBER, "7", 1),
            entry(TokenType::Dot, "", 1),
            entry(TokenType::IDENTIFIER, "abs", 1),
        ]
    );
}

#[test]
fn keywords_need_their_exact_spelling() {
    let scanner = scan("foo_1 and iff");
    assert_eq!(
        summary(&scanner),
        vec![
            entry(TokenType::IDENTIFIER, "foo_1", 1),
            entry(TokenType::AND, "", 1),
            entry(TokenType::IDENTIFIER, "iff", 1),
        ]
    );
    assert!(scanner.diagnostics().is_empty());
}

#[test]
fn every_keyword_is_recognised() {
    assert_eq!(
        kinds("and or true false if else while for return class fun this super print nil var"),
        vec![
            TokenType::AND,
            TokenType::OR,
            TokenType::TRUE,
            TokenType::FALSE,
            TokenType::IF,
            TokenType::ELSE,
            TokenType::WHILE,
            TokenType::FOR,
            TokenType::RETURN,
            TokenType::CLASS,
            TokenType::FUN,
            TokenType::THIS,
            TokenType::SUPER,
            TokenType::PRINT,
            TokenType::NIL,
            TokenType::VAR,
        ]
    );
}

#[test]
fn keywords_carry_no_lexeme() {
    let scanner = scan("while");
    assert_eq!(summary(&scanner), vec![entry(TokenType::WHILE, "", 1)]);
}

#[test]
fn keywords_are_case_sensitive_and_whole() {
    assert_eq!(
        summary(&scan("And VAR fo fort _if nil_")),
        vec![
            entry(TokenType::IDENTIFIER, "And", 1),
            entry(TokenType::IDENTIFIER, "VAR", 1),
            entry(TokenType::IDENTIFIER, "fo", 1),
            entry(TokenType::IDENTIFIER, "fort", 1),
            entry(TokenType::IDENTIFIER, "_if", 1),
            entry(TokenType::IDENTIFIER, "nil_", 1),
        ]
    );
}

#[test]
fn punctuation_maps_one_to_one() {
    assert_eq!(
        kinds("(){},.-+;*/"),
        vec![
            TokenType::LeftParen,
            TokenType::RightParen,
            TokenType::LeftBrace,
            TokenType::RightBrace,
            TokenType::Comma,
            TokenType::Dot,
            TokenType::Minus,
            TokenType::Plus,
            TokenType::Semicolon,
            TokenType::Star,
            TokenType::Slash,
        ]
    );
}

#[test]
fn two_character_operators_win() {
    assert_eq!(
        kinds("! != = == < <= > >="),
        vec![
            TokenType::Bang,
            TokenType::BangEqual,
            TokenType::Equal,
            TokenType::EqualEqual,
            TokenType::Less,
            TokenType::LessEqual,
            TokenType::Greater,
            TokenType::GreaterEqual,
        ]
    );
    assert_eq!(kinds("==="), vec![TokenType::EqualEqual, TokenType::Equal]);
    assert_eq!(kinds("!=="), vec![TokenType::BangEqual, TokenType::Equal]);
    assert_eq!(kinds("<"), vec![TokenType::Less]);
}

#[test]
fn operators_carry_no_lexeme() {
    assert_eq!(
        summary(&scan(">=\n(")),
        vec![
            entry(TokenType::GreaterEqual, "", 1),
            entry(TokenType::LeftParen, "", 2),
        ]
    );
}

#[test]
fn unexpected_character_is_reported_and_skipped() {
    let scanner = scan("a @ b\n#");
    assert_eq!(
        summary(&scanner),
        vec![
            entry(TokenType::IDENTIFIER, "a", 1),
            entry(TokenType::IDENTIFIER, "b", 1),
        ]
    );
    assert_eq!(
        scanner.diagnostics(),
        &vec![
            Diagnostic::UnexpectedCharacter { character: '@', line: 1 },
            Diagnostic::UnexpectedCharacter { character: '#', line: 2 },
        ]
    );
}

#[test]
fn characters_outside_ascii_are_unexpected() {
    let scanner = scan("é1 \"ü\" λ");
    assert_eq!(
        summary(&scanner),
        vec![
            entry(TokenType::NUMBER, "1", 1),
            entry(TokenType::STRING, "\"ü\"", 1),
        ]
    );
    assert_eq!(
        scanner.diagnostics(),
        &vec![
            Diagnostic::UnexpectedCharacter { character: 'é', line: 1 },
            Diagnostic::UnexpectedCharacter { character: 'λ', line: 1 },
        ]
    );
}

#[test]
fn diagnostics_come_in_the_order_of_the_text() {
    let scanner = scan("$\n\n%\n\"open");
    assert!(scanner.tokens().is_empty());
    assert_eq!(
        scanner.diagnostics(),
        &vec![
            Diagnostic::UnexpectedCharacter { character: '$', line: 1 },
            Diagnostic::UnexpectedCharacter { character: '%', line: 3 },
            Diagnostic::UnterminatedString { line: 4 },
        ]
    );
}

#[test]
fn no_end_marker_is_appended() {
    assert_eq!(kinds("var x;"), vec![TokenType::VAR, TokenType::IDENTIFIER, TokenType::Semicolon]);
}

#[test]
fn scanning_twice_gives_the_same() {
    let text = "fun f(a) { return a >= 1.5; } // done\n\"s\" @ \"open";
    let first = scan(text);
    let second = scan(text);
    assert_eq!(summary(&first), summary(&second));
    assert_eq!(first.diagnostics(), second.diagnostics());
    assert_eq!(first.tokens().len(), 13);
    assert_eq!(first.diagnostics().len(), 2);
}

#[test]
fn lines_never_decrease() {
    let scanner = scan("a\nb \"x\ny\" c\n// note\n\nd 1.5\n");
    let lines: Vec<usize> = scanner.tokens().iter().map(|t: &Token| t.line()).collect();
    assert_eq!(lines, vec![1, 2, 2, 3, 6, 6]);
    assert!(lines.windows(2).all(|w| w[0] <= w[1]));
}

#[test]
fn small_program() {
    let scanner = scan("var total = 0;\nfor (i = 1; i <= 10; i = i + 1) {\n  total = total + i;\n}\nprint total;");
    assert_eq!(
        summary(&scanner),
        vec![
            entry(TokenType::VAR, "", 1),
            entry(TokenType::IDENTIFIER, "total", 1),
            entry(TokenType::Equal, "", 1),
            entry(TokenType::NUMBER, "0", 1),
            entry(TokenType::Semicolon, "", 1),
            entry(TokenType::FOR, "", 2),
            entry(TokenType::LeftParen, "", 2),
            entry(TokenType::IDENTIFIER, "i", 2),
            entry(TokenType::Equal, "", 2),
            entry(TokenType::NUMBER, "1", 2),
            entry(TokenType::Semicolon, "", 2),
            entry(TokenType::IDENTIFIER, "i", 2),
            entry(TokenType::LessEqual, "", 2),
            entry(TokenType::NUMBER, "10", 2),
            entry(TokenType::Semicolon, "", 2),
            entry(TokenType::IDENTIFIER, "i", 2),
            entry(TokenType::Equal, "", 2),
            entry(TokenType::IDENTIFIER, "i", 2),
            entry(TokenType::Plus, "", 2),
            entry(TokenType::NUMBER, "1", 2),
            entry(TokenType::RightParen, "", 2),
            entry(TokenType::LeftBrace, "", 2),
            entry(TokenType::IDENTIFIER, "total", 3),
            entry(TokenType::Equal, "", 3),
            entry(TokenType::IDENTIFIER, "total", 3),
            entry(TokenType::Plus, "", 3),
            entry(TokenType::IDENTIFIER, "i", 3),
            entry(TokenType::Semicolon, "", 3),
            entry(TokenType::RightBrace, "", 4),
            entry(TokenType::PRINT, "", 5),
            entry(TokenType::IDENTIFIER, "total", 5),
            entry(TokenType::Semicolon, "", 5),
        ]
    );
    assert!(scanner.diagnostics().is_empty());
}

#[test]
fn lexemes_stand_where_the_kind_fixes_no_spelling() {
    let scanner = scan("class A { fun f(x) { return x != \"s\" or 1.5 / 2; } } // end\n_y");
    assert_eq!(scanner.tokens().len(), 21);
    for token in scanner.tokens() {
        let carries = matches!(
            token.token_type(),
            TokenType::IDENTIFIER | TokenType::STRING | TokenType::NUMBER
        );
        assert_eq!(carries, !token.lexeme().is_empty());
        assert_ne!(token.token_type(), TokenType::EOF);
        assert!(token.line() >= 1);
    }
}
