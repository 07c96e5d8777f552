//! Properties of the scan that hold of every source text.

use vstd::prelude::*;
use crate::lexicon::{
    all_blank, is_blank, lemma_newlines_between, lemma_step_bounds, line_at, scan, scan_from,
    step_at,
};
use crate::scanner::Scanner;
use crate::token::{TokenType, TokenView};

verus! {

/// Blanks to the end of the text yield neither a token nor a diagnostic.
pub proof fn lemma_blank_tail(src: Seq<char>, pos: int)
    requires
        0 <= pos,
        forall|i: int| pos <= i < src.len() ==> is_blank(#[trigger] src[i]),
    ensures
        scan_from(src, pos).tokens =~= Seq::empty(),
        scan_from(src, pos).diagnostics =~= Seq::empty(),
    decreases src.len() - pos,
{
    if pos < src.len() {
        assert(is_blank(src[pos]));
        lemma_blank_tail(src, pos + 1);
    }
}

/// A text of spaces, tabs, carriage returns and line feeds alone scans to
/// no token and no diagnostic.
pub proof fn lemma_blank_text(src: Seq<char>)
    requires
        all_blank(src),
    ensures
        scan(src).tokens.len() == 0,
        scan(src).diagnostics.len() == 0,
{
    lemma_blank_tail(src, 0);
}

/// The tokens scanned from `pos` on stand on the line of `pos` or later, each
/// on the line of the one before it or later.
pub proof fn lemma_lines_from(src: Seq<char>, pos: int)
    requires
        0 <= pos,
    ensures
        forall|i: int|
            0 <= i < scan_from(src, pos).tokens.len() ==> line_at(src, pos) <= (
            #[trigger] scan_from(src, pos).tokens[i]).line,
        forall|i: int, j: int|
            0 <= i <= j < scan_from(src, pos).tokens.len() ==> (#[trigger] scan_from(
                src,
                pos,
            ).tokens[i]).line <= (#[trigger] scan_from(src, pos).tokens[j]).line,
    decreases src.len() - pos,
{
    if pos < src.len() {
        let step = step_at(src, pos);
        let next = pos + step.width;
        lemma_step_bounds(src, pos);
        lemma_lines_from(src, next);
        lemma_newlines_between(src, pos, next);
        let rest = scan_from(src, next).tokens;
        let all = scan_from(src, pos).tokens;
        match step.token {
            Some(token) => {
                assert(token.line == line_at(src, pos));
                assert(all =~= seq![token] + rest);
                assert forall|i: int| 0 < i < all.len() implies all[i] == rest[i - 1] by {}
            },
            None => {
                assert(all =~= rest);
            },
        }
    }
}

/// The lines of the tokens of a scan never decrease.
pub proof fn lemma_lines_ordered(src: Seq<char>, i: int, j: int)
    requires
        0 <= i <= j < scan(src).tokens.len(),
    ensures
        scan(src).tokens[i].line <= scan(src).tokens[j].line,
{
    lemma_lines_from(src, 0);
}

/// The kinds whose tokens carry the text they matched.
pub open spec fn carries_text(kind: TokenType) -> bool {
    kind == TokenType::IDENTIFIER || kind == TokenType::STRING || kind == TokenType::NUMBER
}

/// What holds of every token, whatever the text: it is no end marker, its
/// line is 1 or more, and it has a lexeme exactly where its kind does not fix
/// its spelling.
pub open spec fn shaped(token: TokenView) -> bool {
    &&& token.kind != TokenType::EOF
    &&& token.line >= 1
    &&& (carries_text(token.kind) <==> token.lexeme.len() > 0)
}

/// Every token scanned from `pos` on is shaped.
pub proof fn lemma_shapes_from(src: Seq<char>, pos: int)
    requires
        0 <= pos,
    ensures
        forall|i: int|
            0 <= i < scan_from(src, pos).tokens.len() ==> shaped(
                #[trigger] scan_from(src, pos).tokens[i],
            ),
    decreases src.len() - pos,
{
    if pos < src.len() {
        let step = step_at(src, pos);
        lemma_step_bounds(src, pos);
        lemma_shapes_from(src, pos + step.width);
        let rest = scan_from(src, pos + step.width).tokens;
        let all = scan_from(src, pos).tokens;
        match step.token {
            Some(token) => {
                assert(shaped(token));
                assert(all =~= seq![token] + rest);
                assert forall|i: int| 0 < i < all.len() implies all[i] == rest[i - 1] by {}
            },
            None => {
                assert(all =~= rest);
            },
        }
    }
}

/// No scan yields an end marker, and a token of a scan has a lexeme exactly
/// where it is an identifier, a string or a number.
pub proof fn lemma_tokens_shaped(src: Seq<char>, i: int)
    requires
        0 <= i < scan(src).tokens.len(),
    ensures
        shaped(scan(src).tokens[i]),
{
    lemma_shapes_from(src, 0);
}

/// Two scanners that have scanned the same text hold the same tokens and the
/// same diagnostics: a scan depends on nothing but its text.
pub proof fn lemma_scan_repeatable(first: Scanner, second: Scanner)
    requires
        first.finished(),
        second.finished(),
        first.source() == second.source(),
    ensures
        first.produced() == second.produced(),
        first.reported() == second.reported(),
{
}

} // verus!
