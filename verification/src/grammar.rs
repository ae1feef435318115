//! The lexical grammar: what one scanning step makes of the text at a
//! given offset, and what a whole scan yields.

use vstd::prelude::*;
use crate::charclass::{
    is_alpha, is_digit, is_whitespace, lemma_run_end, line_at, run_end, CharClass,
};
use crate::diagnostic::{DiagnosticView, LexicalError};
use crate::number::{decimal_of, numeral_end};
use crate::token::TokenView;
use crate::token_type::{resolve_keyword, TokenTypeView};

verus! {

/// The outcome of one scanning step: where the scanner stands after it,
/// and the token or the diagnostic that it produced, if any.
pub struct Step {
    pub end: int,
    pub token: Option<TokenView>,
    pub diagnostic: Option<DiagnosticView>,
}

/// The tokens and diagnostics of a stretch of text, each in source order.
pub struct Scan {
    pub tokens: Seq<TokenView>,
    pub diagnostics: Seq<DiagnosticView>,
}

/// Whether `src` holds the character `c` at offset `pos`.
pub open spec fn has_at(src: Seq<char>, pos: int, c: char) -> bool {
    0 <= pos < src.len() && src[pos] == c
}

/// The kind of a character that is a token by itself.
pub open spec fn punctuation(c: char) -> Option<TokenTypeView> {
    if c == '(' {
        Some(TokenTypeView::LeftParen)
    } else if c == ')' {
        Some(TokenTypeView::RightParen)
    } else if c == '{' {
        Some(TokenTypeView::LeftBrace)
    } else if c == '}' {
        Some(TokenTypeView::RightBrace)
    } else if c == ',' {
        Some(TokenTypeView::Comma)
    } else if c == '.' {
        Some(TokenTypeView::Dot)
    } else if c == '-' {
        Some(TokenTypeView::Minus)
    } else if c == '+' {
        Some(TokenTypeView::Plus)
    } else if c == ';' {
        Some(TokenTypeView::Semicolon)
    } else if c == '*' {
        Some(TokenTypeView::Star)
    } else {
        None
    }
}

/// The kind of an operator character that may be followed by `=`:
/// alone, or together with that `=`.
pub open spec fn operator(c: char, with_equal: bool) -> Option<TokenTypeView> {
    if c == '!' {
        Some(
            if with_equal {
                TokenTypeView::BangEqual
            } else {
                TokenTypeView::Bang
            },
        )
    } else if c == '=' {
        Some(
            if with_equal {
                TokenTypeView::EqualEqual
            } else {
                TokenTypeView::Equal
            },
        )
    } else if c == '<' {
        Some(
            if with_equal {
                TokenTypeView::LessEqual
            } else {
                TokenTypeView::Less
            },
        )
    } else if c == '>' {
        Some(
            if with_equal {
                TokenTypeView::GreaterEqual
            } else {
                TokenTypeView::Greater
            },
        )
    } else {
        None
    }
}

/// Where a block comment ends. `pos` lies inside the comment, `depth`
/// openers deep. Each further `/*` goes one deeper, each `*/` comes one
/// back, and the comment ends behind the `*/` that brings the depth to
/// zero. `None` where the text ends first.
pub open spec fn comment_end(src: Seq<char>, pos: int, depth: nat) -> Option<int>
    decreases src.len() - pos,
{
    if depth == 0 {
        Some(pos)
    } else if pos < 0 || pos >= src.len() {
        None
    } else if has_at(src, pos, '/') && has_at(src, pos + 1, '*') {
        comment_end(src, pos + 2, depth + 1)
    } else if has_at(src, pos, '*') && has_at(src, pos + 1, '/') {
        comment_end(src, pos + 2, (depth - 1) as nat)
    } else {
        comment_end(src, pos + 1, depth)
    }
}

/// A step that yields the token of kind `kind` scanned from
/// `src[start..end]`. The token carries the line on which it ends.
pub open spec fn emit(src: Seq<char>, start: int, end: int, kind: TokenTypeView) -> Step {
    Step {
        end,
        token: Some(
            TokenView { kind, lexeme: Some(src.subrange(start, end)), line: line_at(src, end) },
        ),
        diagnostic: None,
    }
}

/// A step that consumes text up to `end` and yields nothing.
pub open spec fn skip(end: int) -> Step {
    Step { end, token: None, diagnostic: None }
}

/// A step that consumes text up to `end` and reports `error` at the
/// line on which the offending text starts.
pub open spec fn reject(src: Seq<char>, start: int, end: int, error: LexicalError) -> Step {
    Step {
        end,
        token: None,
        diagnostic: Some(DiagnosticView { line: line_at(src, start), error }),
    }
}

/// One scanning step at offset `pos` of `src`.
pub open spec fn step(src: Seq<char>, pos: int) -> Step
    recommends
        0 <= pos < src.len(),
{
    let c = src[pos];
    if punctuation(c) is Some {
        emit(src, pos, pos + 1, punctuation(c)->0)
    } else if operator(c, false) is Some {
        if has_at(src, pos + 1, '=') {
            emit(src, pos, pos + 2, operator(c, true)->0)
        } else {
            emit(src, pos, pos + 1, operator(c, false)->0)
        }
    } else if c == '/' {
        if has_at(src, pos + 1, '/') {
            skip(run_end(src, pos + 2, CharClass::NotNewline))
        } else if has_at(src, pos + 1, '*') {
            match comment_end(src, pos + 2, 1) {
                Some(end) => skip(end),
                None => reject(src, pos, src.len() as int, LexicalError::UnterminatedComment),
            }
        } else {
            emit(src, pos, pos + 1, TokenTypeView::Slash)
        }
    } else if is_whitespace(c) {
        skip(pos + 1)
    } else if c == '"' {
        let close = run_end(src, pos + 1, CharClass::NotQuote);
        if close < src.len() {
            emit(src, pos, close + 1, TokenTypeView::LoxString(src.subrange(pos + 1, close)))
        } else {
            reject(src, pos, src.len() as int, LexicalError::UnterminatedString)
        }
    } else if is_digit(c) {
        let end = numeral_end(src, pos);
        emit(src, pos, end, TokenTypeView::Number(decimal_of(src.subrange(pos, end))))
    } else if is_alpha(c) {
        let end = run_end(src, pos + 1, CharClass::Word);
        emit(src, pos, end, resolve_keyword(TokenTypeView::Identifier(src.subrange(pos, end))))
    } else {
        reject(src, pos, pos + 1, LexicalError::UnexpectedCharacter(c))
    }
}

/// The one element of `item`, or nothing.
pub open spec fn optional<T>(item: Option<T>) -> Seq<T> {
    match item {
        Some(x) => seq![x],
        None => Seq::empty(),
    }
}

/// What scanning yields from offset `pos` to the end of `src`, the end
/// of input token left out.
pub open spec fn scan_from(src: Seq<char>, pos: int) -> Scan
    decreases src.len() - pos,
{
    if 0 <= pos < src.len() {
        let one = step(src, pos);
        proof {
            lemma_step_advances(src, pos);
        }
        let rest = scan_from(src, one.end);
        Scan {
            tokens: optional(one.token) + rest.tokens,
            diagnostics: optional(one.diagnostic) + rest.diagnostics,
        }
    } else {
        Scan { tokens: Seq::empty(), diagnostics: Seq::empty() }
    }
}

/// The token that marks the end of `src`.
pub open spec fn end_of_input(src: Seq<char>) -> TokenView {
    TokenView { kind: TokenTypeView::Eof, lexeme: None, line: line_at(src, src.len() as int) }
}

/// The result of scanning `src`: every token of the text in source
/// order, closed by the end of input token, and every diagnostic.
pub open spec fn lex(src: Seq<char>) -> Scan {
    Scan {
        tokens: scan_from(src, 0).tokens.push(end_of_input(src)),
        diagnostics: scan_from(src, 0).diagnostics,
    }
}

/// A block comment that ends, ends inside the text and not before the
/// offset it is entered at.
pub proof fn lemma_comment_end(src: Seq<char>, pos: int, depth: nat)
    requires
        0 <= pos <= src.len(),
    ensures
        comment_end(src, pos, depth) matches Some(end) ==> pos <= end <= src.len(),
    decreases src.len() - pos,
{
    if depth == 0 || pos >= src.len() {
    } else if has_at(src, pos, '/') && has_at(src, pos + 1, '*') {
        lemma_comment_end(src, pos + 2, depth + 1);
    } else if has_at(src, pos, '*') && has_at(src, pos + 1, '/') {
        lemma_comment_end(src, pos + 2, (depth - 1) as nat);
    } else {
        lemma_comment_end(src, pos + 1, depth);
    }
}

/// The longest numeral at a digit is not empty and ends inside the text.
pub proof fn lemma_numeral_end(src: Seq<char>, pos: int)
    requires
        0 <= pos < src.len(),
        is_digit(src[pos]),
    ensures
        pos < numeral_end(src, pos) <= src.len(),
{
    lemma_run_end(src, pos, CharClass::Digit);
    let whole_end = run_end(src, pos, CharClass::Digit);
    if whole_end + 1 < src.len() {
        lemma_run_end(src, whole_end + 1, CharClass::Digit);
    }
}

/// Every step consumes at least one character and stays inside the text.
pub proof fn lemma_step_advances(src: Seq<char>, pos: int)
    requires
        0 <= pos < src.len(),
    ensures
        pos < step(src, pos).end <= src.len(),
{
    let c = src[pos];
    if punctuation(c) is Some {
    } else if operator(c, false) is Some {
    } else if c == '/' {
        if has_at(src, pos + 1, '/') {
            lemma_run_end(src, pos + 2, CharClass::NotNewline);
        } else if has_at(src, pos + 1, '*') {
            lemma_comment_end(src, pos + 2, 1);
        }
    } else if is_whitespace(c) {
    } else if c == '"' {
        lemma_run_end(src, pos + 1, CharClass::NotQuote);
    } else if is_digit(c) {
        lemma_numeral_end(src, pos);
    } else if is_alpha(c) {
        lemma_run_end(src, pos + 1, CharClass::Word);
    }
}

/// A scan from `pos` is the outcome of the step at `pos` followed by
/// the scan from where that step ends.
pub proof fn lemma_scan_from_unfold(src: Seq<char>, pos: int)
    requires
        0 <= pos < src.len(),
    ensures
        scan_from(src, pos).tokens == optional(step(src, pos).token) + scan_from(
            src,
            step(src, pos).end,
        ).tokens,
        scan_from(src, pos).diagnostics == optional(step(src, pos).diagnostic) + scan_from(
            src,
            step(src, pos).end,
        ).diagnostics,
{
    lemma_step_advances(src, pos);
}

} // verus!
