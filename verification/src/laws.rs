//! What holds of every scan.

use vstd::prelude::*;
use crate::charclass::{
    is_whitespace, lemma_line_at_monotone, lemma_run_end, line_at, run_end, CharClass,
};
use crate::grammar::{
    comment_end, end_of_input, has_at, lemma_comment_end, lemma_scan_from_unfold,
    lemma_step_advances, lex, operator, punctuation, scan_from, step,
};
use crate::token::TokenView;

verus! {

/// A token that stands for text of the source: it is no end of input
/// token, its lexeme is a stretch of the source that is not empty, and
/// its line is the line on which that stretch ends.
pub open spec fn is_source_token(src: Seq<char>, token: TokenView) -> bool {
    &&& !(token.kind is Eof)
    &&& exists|from: int, to: int|
        0 <= from < to <= src.len() && token.lexeme == Some(#[trigger] src.subrange(from, to))
            && token.line == line_at(src, to)
}

/// Whether the text from `pos` on holds nothing but white space, line
/// comments and block comments that are closed.
pub open spec fn blank_from(src: Seq<char>, pos: int) -> bool
    decreases src.len() - pos,
{
    if pos < 0 || pos >= src.len() {
        true
    } else if is_whitespace(src[pos]) {
        blank_from(src, pos + 1)
    } else if has_at(src, pos, '/') && has_at(src, pos + 1, '/') {
        proof {
            lemma_run_end(src, pos + 2, CharClass::NotNewline);
        }
        blank_from(src, run_end(src, pos + 2, CharClass::NotNewline))
    } else if has_at(src, pos, '/') && has_at(src, pos + 1, '*') {
        proof {
            lemma_comment_end(src, pos + 2, 1);
        }
        match comment_end(src, pos + 2, 1) {
            Some(end) => blank_from(src, end),
            None => false,
        }
    } else {
        false
    }
}

/// Whether `src` holds nothing but white space and comments.
pub open spec fn is_blank(src: Seq<char>) -> bool {
    blank_from(src, 0)
}

/// The token of a step stands for the text that the step consumed.
pub proof fn lemma_step_token(src: Seq<char>, pos: int)
    requires
        0 <= pos < src.len(),
    ensures
        step(src, pos).token matches Some(token) ==> is_source_token(src, token),
{
    lemma_step_advances(src, pos);
    let one = step(src, pos);
    if one.token is Some {
        // The step consumed `src[pos..one.end]`.
        assert(one.token->0.lexeme == Some(src.subrange(pos, one.end)));
    }
}

/// Every token that a scan yields before the end of input stands for
/// text of the source.
pub proof fn lemma_scan_from_tokens(src: Seq<char>, pos: int)
    requires
        0 <= pos <= src.len(),
    ensures
        forall|i: int|
            0 <= i < scan_from(src, pos).tokens.len() ==> is_source_token(
                src,
                #[trigger] scan_from(src, pos).tokens[i],
            ),
    decreases src.len() - pos,
{
    if pos < src.len() {
        lemma_step_advances(src, pos);
        lemma_scan_from_unfold(src, pos);
        lemma_step_token(src, pos);
        lemma_scan_from_tokens(src, step(src, pos).end);
    }
}

/// Every scan ends with the end of input token, and that token occurs
/// nowhere else: each token before it stands for text of the source.
pub proof fn lemma_lex_ends_with_eof(src: Seq<char>)
    ensures
        lex(src).tokens.len() >= 1,
        lex(src).tokens.last() == end_of_input(src),
        lex(src).tokens.last().kind is Eof,
        forall|i: int|
            0 <= i < lex(src).tokens.len() - 1 ==> is_source_token(
                src,
                #[trigger] lex(src).tokens[i],
            ),
        forall|i: int|
            0 <= i < lex(src).tokens.len() - 1 ==> !(#[trigger] lex(src).tokens[i].kind is Eof),
{
    lemma_scan_from_tokens(src, 0);
    assert forall|i: int| 0 <= i < lex(src).tokens.len() - 1 implies is_source_token(
        src,
        #[trigger] lex(src).tokens[i],
    ) by {
        assert(lex(src).tokens[i] == scan_from(src, 0).tokens[i]);
    }
}

/// Blank text yields no token and no diagnostic, and text that yields
/// neither is blank.
pub proof fn lemma_blank_from(src: Seq<char>, pos: int)
    requires
        0 <= pos <= src.len(),
    ensures
        blank_from(src, pos) <==> (scan_from(src, pos).tokens.len() == 0 && scan_from(
            src,
            pos,
        ).diagnostics.len() == 0),
    decreases src.len() - pos,
{
    if pos < src.len() {
        lemma_step_advances(src, pos);
        lemma_scan_from_unfold(src, pos);
        let one = step(src, pos);
        lemma_blank_from(src, one.end);
        let c = src[pos];
        if punctuation(c) is Some {
        } else if operator(c, false) is Some {
        } else if c == '/' {
            if has_at(src, pos + 1, '/') {
                lemma_run_end(src, pos + 2, CharClass::NotNewline);
            } else if has_at(src, pos + 1, '*') {
                lemma_comment_end(src, pos + 2, 1);
            }
        }
    }
}

/// A source that holds only white space and comments scans to exactly
/// the end of input token, without a diagnostic; and no other source
/// does.
pub proof fn lemma_blank_source(src: Seq<char>)
    ensures
        is_blank(src) <==> (lex(src).tokens == seq![end_of_input(src)] && lex(
            src,
        ).diagnostics.len() == 0),
{
    lemma_blank_from(src, 0);
    if scan_from(src, 0).tokens.len() == 0 {
        assert(lex(src).tokens =~= seq![end_of_input(src)]);
    } else {
        assert(lex(src).tokens.len() >= 2);
        assert(seq![end_of_input(src)].len() == 1);
    }
}

/// The stretches of the source, as pairs of offsets, that the tokens
/// scanned from `pos` on were made from, one for each token.
pub open spec fn spans_from(src: Seq<char>, pos: int) -> Seq<(int, int)>
    decreases src.len() - pos,
{
    if 0 <= pos < src.len() {
        let one = step(src, pos);
        proof {
            lemma_step_advances(src, pos);
        }
        (if one.token is Some {
            seq![(pos, one.end)]
        } else {
            Seq::empty()
        }) + spans_from(src, one.end)
    } else {
        Seq::empty()
    }
}

/// The tokens scanned from `pos` on stand for stretches of the source
/// behind `pos` that do not overlap and follow each other as the
/// tokens do.
pub proof fn lemma_spans_from(src: Seq<char>, pos: int)
    requires
        0 <= pos <= src.len(),
    ensures
        spans_from(src, pos).len() == scan_from(src, pos).tokens.len(),
        forall|i: int|
            0 <= i < spans_from(src, pos).len() ==> {
                let span = #[trigger] spans_from(src, pos)[i];
                let token = scan_from(src, pos).tokens[i];
                &&& pos <= span.0 < span.1 <= src.len()
                &&& token.lexeme == Some(src.subrange(span.0, span.1))
                &&& token.line == line_at(src, span.1)
            },
        forall|i: int, j: int|
            0 <= i < j < spans_from(src, pos).len() ==> (#[trigger] spans_from(src, pos)[i]).1 <= (
            #[trigger] spans_from(src, pos)[j]).0,
    decreases src.len() - pos,
{
    if pos < src.len() {
        lemma_step_advances(src, pos);
        lemma_scan_from_unfold(src, pos);
        let one = step(src, pos);
        lemma_spans_from(src, one.end);
        let spans = spans_from(src, pos);
        let rest = spans_from(src, one.end);
        let tokens = scan_from(src, pos).tokens;
        let rest_tokens = scan_from(src, one.end).tokens;
        if one.token is Some {
            // The first span is that of the step; the others are those
            // of the rest, which lie behind the end of the step.
            assert(spans[0] == (pos, one.end));
            assert forall|i: int| 0 < i < spans.len() implies #[trigger] spans[i] == rest[i - 1]
                && tokens[i] == rest_tokens[i - 1] by {}
        } else {
            assert(spans =~= rest);
            assert(tokens =~= rest_tokens);
        }
    }
}

/// The tokens of a scan stand in the order of the source: each token
/// before the end of input was made from a stretch of the source that
/// is not empty, holds the token's lexeme and ends on the token's line,
/// and the stretch of a later token begins where that of an earlier
/// one has ended, or behind it.
pub proof fn lemma_tokens_in_source_order(src: Seq<char>)
    ensures
        spans_from(src, 0).len() == lex(src).tokens.len() - 1,
        forall|i: int|
            0 <= i < spans_from(src, 0).len() ==> {
                let span = #[trigger] spans_from(src, 0)[i];
                let token = lex(src).tokens[i];
                &&& 0 <= span.0 < span.1 <= src.len()
                &&& token.lexeme == Some(src.subrange(span.0, span.1))
                &&& token.line == line_at(src, span.1)
            },
        forall|i: int, j: int|
            0 <= i < j < spans_from(src, 0).len() ==> (#[trigger] spans_from(src, 0)[i]).1 <= (
            #[trigger] spans_from(src, 0)[j]).0,
{
    lemma_spans_from(src, 0);
    assert forall|i: int| 0 <= i < spans_from(src, 0).len() implies lex(src).tokens[i]
        == #[trigger] scan_from(src, 0).tokens[i] by {}
}

/// Along the tokens of a scan the lines never go back, and no token
/// lies on a line that the source does not have.
pub proof fn lemma_token_lines_ordered(src: Seq<char>)
    ensures
        forall|i: int, j: int|
            0 <= i <= j < lex(src).tokens.len() ==> (#[trigger] lex(src).tokens[i]).line <= (
            #[trigger] lex(src).tokens[j]).line,
        forall|i: int|
            0 <= i < lex(src).tokens.len() ==> (#[trigger] lex(src).tokens[i]).line <= src.len(),
{
    lemma_tokens_in_source_order(src);
    let spans = spans_from(src, 0);
    let tokens = lex(src).tokens;
    let last = tokens.len() - 1;
    lemma_line_at_monotone(src, 0, src.len() as int);
    assert forall|i: int, j: int| 0 <= i <= j < tokens.len() implies (#[trigger] tokens[i]).line
        <= (#[trigger] tokens[j]).line by {
        if i < j {
            let a = spans[i];
            if j < last {
                let b = spans[j];
                lemma_line_at_monotone(src, a.1, b.1);
            } else {
                lemma_line_at_monotone(src, a.1, src.len() as int);
            }
        }
    }
    assert forall|i: int| 0 <= i < tokens.len() implies (#[trigger] tokens[i]).line
        <= src.len() by {
        assert(tokens[i].line <= tokens[last].line);
    }
}

} // verus!
