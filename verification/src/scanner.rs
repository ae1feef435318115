//! The scanner: a single pass over the source that collects tokens and
//! diagnostics and never gives up on an error.

use vstd::prelude::*;
use crate::charclass::{
    in_class, is_alpha, is_alphanumeric, is_digit, lemma_line_at_monotone, lemma_line_at_next,
    lemma_run_end, lemma_run_end_is, line_at, run_end, CharClass,
};
use crate::diagnostic::{diagnostic_views, Diagnostic, DiagnosticView, LexicalError};
use crate::grammar::{
    comment_end, end_of_input, has_at, lemma_scan_from_unfold, lemma_step_advances, lex,
    optional, scan_from, step,
};
use crate::laws::lemma_lex_ends_with_eof;
use crate::number::{decimal_of, is_numeral, numeral_end, Decimal};
use crate::text::{chars_of, collect_range};
use crate::token::{token_views, Token, TokenView};
use crate::token_type::{resolve_keyword, TokenType, TokenTypeView};

verus! {

/// The state of a scan: the source, what has been produced so far, and
/// where the scanner stands.
pub struct Scanner {
    source: Vec<char>,
    tokens: Vec<Token>,
    diagnostics: Vec<Diagnostic>,
    // Where the scanner stands.
    start: usize,
    current: usize,
    line: usize,
    finished: bool,
}

/// The mathematical content of a [`Scanner`].
pub struct ScannerView {
    /// The source, as characters.
    pub source: Seq<char>,
    /// The tokens produced so far.
    pub tokens: Seq<TokenView>,
    /// The diagnostics produced so far.
    pub diagnostics: Seq<DiagnosticView>,
    /// The offset at which the latest token scan began.
    pub start: nat,
    /// The offset of the next unread character.
    pub current: nat,
    /// The number of line feeds consumed so far.
    pub line: nat,
    /// Whether the end of input token has been produced.
    pub finished: bool,
}

impl View for Scanner {
    type V = ScannerView;

    closed spec fn view(&self) -> ScannerView {
        ScannerView {
            source: self.source@,
            tokens: token_views(self.tokens@),
            diagnostics: diagnostic_views(self.diagnostics@),
            start: self.start as nat,
            current: self.current as nat,
            line: self.line as nat,
            finished: self.finished,
        }
    }
}

impl ScannerView {
    /// The cursors are in order and inside the source, and the line is
    /// the number of line feeds before the cursor.
    pub open spec fn cursor_ok(self) -> bool {
        &&& self.start <= self.current <= self.source.len()
        &&& self.line == line_at(self.source, self.current as int)
    }

    /// The tokens that are still to come.
    pub open spec fn tokens_to_come(self) -> Seq<TokenView> {
        if self.finished {
            Seq::empty()
        } else {
            scan_from(self.source, self.current as int).tokens.push(end_of_input(self.source))
        }
    }

    /// The diagnostics that are still to come.
    pub open spec fn diagnostics_to_come(self) -> Seq<DiagnosticView> {
        scan_from(self.source, self.current as int).diagnostics
    }

    /// The scanner stands between two tokens, and what it has produced
    /// followed by what is still to come is the scan of the whole source.
    pub open spec fn wf(self) -> bool {
        &&& self.cursor_ok()
        &&& self.finished ==> self.current == self.source.len()
        &&& self.tokens + self.tokens_to_come() == lex(self.source).tokens
        &&& self.diagnostics + self.diagnostics_to_come() == lex(self.source).diagnostics
    }

    /// Only the cursor and the line differ between `self` and `before`.
    pub(crate) open spec fn moved_from(self, before: ScannerView) -> bool {
        &&& self.source == before.source
        &&& self.tokens == before.tokens
        &&& self.diagnostics == before.diagnostics
        &&& self.start == before.start
        &&& self.finished == before.finished
    }

    /// `self` is `before` after one token was added for the text between
    /// the two cursors.
    pub(crate) open spec fn added_token(self, before: ScannerView, kind: TokenTypeView) -> bool {
        &&& self.source == before.source
        &&& self.tokens == before.tokens.push(
            TokenView {
                kind,
                lexeme: Some(before.source.subrange(before.start as int, before.current as int)),
                line: before.line,
            },
        )
        &&& self.diagnostics == before.diagnostics
        &&& self.start == before.start
        &&& self.current == before.current
        &&& self.line == before.line
        &&& self.finished == before.finished
    }

    /// `self` is `before` after `error` was reported at `line`.
    pub(crate) open spec fn added_diagnostic(
        self,
        before: ScannerView,
        line: nat,
        error: LexicalError,
    ) -> bool {
        &&& self.source == before.source
        &&& self.tokens == before.tokens
        &&& self.diagnostics == before.diagnostics.push(DiagnosticView { line, error })
        &&& self.start == before.start
        &&& self.current == before.current
        &&& self.line == before.line
        &&& self.finished == before.finished
    }
}

proof fn lemma_token_views_push(tokens: Seq<Token>, token: Token)
    ensures
        token_views(tokens.push(token)) == token_views(tokens).push(token@),
{
}

proof fn lemma_diagnostic_views_push(diagnostics: Seq<Diagnostic>, diagnostic: Diagnostic)
    ensures
        diagnostic_views(diagnostics.push(diagnostic)) == diagnostic_views(diagnostics).push(
            diagnostic@,
        ),
{
}

impl Scanner {
    /// A scanner at the beginning of `source`, with nothing produced.
    pub fn new(source: String) -> (scanner: Scanner)
        ensures
            scanner@.wf(),
            scanner@.source == source@,
            scanner@.tokens.len() == 0,
            scanner@.diagnostics.len() == 0,
            scanner@.start == 0,
            scanner@.current == 0,
            scanner@.line == 0,
            !scanner@.finished,
    {
        let scanner = Scanner {
            source: chars_of(source.as_str()),
            tokens: Vec::new(),
            diagnostics: Vec::new(),
            start: 0,
            current: 0,
            line: 0,
            finished: false,
        };
        proof {
            lemma_line_at_monotone(scanner@.source, 0, 0);
        }
        scanner
    }

    /// Scans one token: records where it starts, consumes its first
    /// character and whatever belongs to it, and adds the token or the
    /// diagnostic that the text calls for. White space and comments add
    /// nothing. At the end of the source nothing happens.
    pub fn scan_token(&mut self)
        requires
            old(self)@.wf(),
        ensures
            final(self)@.wf(),
            final(self)@.source == old(self)@.source,
            final(self)@.finished == old(self)@.finished,
            old(self)@.current >= old(self)@.source.len() ==> final(self)@ == old(self)@,
            old(self)@.current < old(self)@.source.len() ==> ({
                let one = step(old(self)@.source, old(self)@.current as int);
                &&& final(self)@.start == old(self)@.current
                &&& final(self)@.current == one.end
                &&& final(self)@.tokens == old(self)@.tokens + optional(one.token)
                &&& final(self)@.diagnostics == old(self)@.diagnostics + optional(one.diagnostic)
            }),
    {
        let ghost before = self@;
        let ghost src = self@.source;
        let ghost pos = self@.current as int;
        if self.is_at_end() {
            return ;
        }
        self.start = self.current;
        if let Some(c) = self.advance() {
            proof {
                lemma_step_advances(src, pos);
                lemma_scan_from_unfold(src, pos);
            }
            match c {
                '(' => self.add_token(TokenType::LeftParen),
                ')' => self.add_token(TokenType::RightParen),
                '{' => self.add_token(TokenType::LeftBrace),
                '}' => self.add_token(TokenType::RightBrace),
                ',' => self.add_token(TokenType::Comma),
                '.' => self.add_token(TokenType::Dot),
                '-' => self.add_token(TokenType::Minus),
                '+' => self.add_token(TokenType::Plus),
                ';' => self.add_token(TokenType::Semicolon),
                '*' => self.add_token(TokenType::Star),
                '!' => {
                    let token_type = if self.match_next('=') {
                        TokenType::BangEqual
                    } else {
                        TokenType::Bang
                    };
                    self.add_token(token_type);
                },
                '=' => {
                    let token_type = if self.match_next('=') {
                        TokenType::EqualEqual
                    } else {
                        TokenType::Equal
                    };
                    self.add_token(token_type);
                },
                '<' => {
                    let token_type = if self.match_next('=') {
                        TokenType::LessEqual
                    } else {
                        TokenType::Less
                    };
                    self.add_token(token_type);
                },
                '>' => {
                    let token_type = if self.match_next('=') {
                        TokenType::GreaterEqual
                    } else {
                        TokenType::Greater
                    };
                    self.add_token(token_type);
                },
                '/' => {
                    if self.match_next('/') {
                        self.line_comment();
                    } else if self.match_next('*') {
                        self.block_comment();
                    } else {
                        self.add_token(TokenType::Slash);
                    }
                },
                ' ' => {},
                '\r' => {},
                '\t' => {},
                '\n' => {},
                '"' => self.string(),
                _ => {
                    if Scanner::is_digit(Some(c)) {
                        self.number();
                    } else if Scanner::is_alpha(Some(c)) {
                        self.identifier();
                    } else {
                        self.add_diagnostic(self.line, LexicalError::UnexpectedCharacter(c));
                    }
                },
            }
            proof {
                // What was to come before this step is the outcome of the
                // step followed by what is to come after it.
                assert(self@.tokens + self@.tokens_to_come() =~= before.tokens
                    + before.tokens_to_come());
                assert(self@.diagnostics + self@.diagnostics_to_come() =~= before.diagnostics
                    + before.diagnostics_to_come());
            }
        }
    }

    fn identifier(&mut self)
        requires
            old(self)@.cursor_ok(),
            old(self)@.start < old(self)@.current,
        ensures
            final(self)@.current == run_end(
                old(self)@.source,
                old(self)@.current as int,
                CharClass::Word,
            ),
            final(self)@.line == old(self)@.line,
            final(self)@.cursor_ok(),
            final(self)@.added_token(
                ScannerView {
                    current: final(self)@.current,
                    line: final(self)@.line,
                    ..old(self)@
                },
                resolve_keyword(
                    TokenTypeView::Identifier(
                        old(self)@.source.subrange(
                            old(self)@.start as int,
                            final(self)@.current as int,
                        ),
                    ),
                ),
            ),
    {
        self.skip_run(CharClass::Word);
        let text = collect_range(&self.source, self.start, self.current);
        self.add_token(TokenType::Identifier(text).check_keyword());
    }

    fn is_alpha(c: Option<char>) -> (yes: bool)
        ensures
            yes == (c matches Some(x) && is_alpha(x)),
    {
        match c {
            Some(c) => ('a' <= c && c <= 'z') || ('A' <= c && c <= 'Z') || c == '_',
            None => false,
        }
    }

    fn is_alphanumeric(c: Option<char>) -> (yes: bool)
        ensures
            yes == (c matches Some(x) && is_alphanumeric(x)),
    {
        Scanner::is_alpha(c) || Scanner::is_digit(c)
    }

    fn string(&mut self)
        requires
            old(self)@.cursor_ok(),
            old(self)@.current == old(self)@.start + 1,
            old(self)@.source[old(self)@.start as int] == '"',
        ensures
            final(self)@.cursor_ok(),
            ({
                let src = old(self)@.source;
                let close = run_end(src, old(self)@.current as int, CharClass::NotQuote);
                if close < src.len() {
                    &&& final(self)@.current == close + 1
                    &&& final(self)@.added_token(
                        ScannerView {
                            current: final(self)@.current,
                            line: final(self)@.line,
                            ..old(self)@
                        },
                        TokenTypeView::LoxString(src.subrange(old(self)@.current as int, close)),
                    )
                } else {
                    &&& final(self)@.current == src.len()
                    &&& final(self)@.added_diagnostic(
                        ScannerView {
                            current: final(self)@.current,
                            line: final(self)@.line,
                            ..old(self)@
                        },
                        line_at(src, old(self)@.start as int),
                        LexicalError::UnterminatedString,
                    )
                }
            }),
    {
        let opening_line = self.line;
        proof {
            lemma_line_at_next(self@.source, self@.start as int);
        }
        self.skip_run(CharClass::NotQuote);
        if self.is_at_end() {
            self.add_diagnostic(opening_line, LexicalError::UnterminatedString);
        } else {
            self.advance();
            let text = collect_range(&self.source, self.start + 1, self.current - 1);
            self.add_token(TokenType::LoxString(text));
        }
    }

    fn number(&mut self)
        requires
            old(self)@.cursor_ok(),
            old(self)@.current == old(self)@.start + 1,
            is_digit(old(self)@.source[old(self)@.start as int]),
        ensures
            final(self)@.current == numeral_end(old(self)@.source, old(self)@.start as int),
            final(self)@.line == old(self)@.line,
            final(self)@.cursor_ok(),
            final(self)@.added_token(
                ScannerView {
                    current: final(self)@.current,
                    line: final(self)@.line,
                    ..old(self)@
                },
                TokenTypeView::Number(
                    decimal_of(
                        old(self)@.source.subrange(
                            old(self)@.start as int,
                            final(self)@.current as int,
                        ),
                    ),
                ),
            ),
    {
        let ghost src = self@.source;
        let ghost from = self@.start as int;
        self.skip_run(CharClass::Digit);
        let ghost whole_end = self@.current as int;
        proof {
            lemma_run_end(src, from + 1, CharClass::Digit);
            lemma_run_end_is(src, from, whole_end, CharClass::Digit);
        }
        if self.peek() == Some('.') && Scanner::is_digit(self.peek_next()) {
            self.advance();
            self.skip_run(CharClass::Digit);
        }
        proof {
            let to = self@.current as int;
            let text = src.subrange(from, to);
            lemma_run_end_is(text, 0, whole_end - from, CharClass::Digit);
            if to > whole_end {
                lemma_run_end(src, whole_end + 1, CharClass::Digit);
                lemma_run_end_is(text, whole_end - from + 1, to - from, CharClass::Digit);
            }
        }
        let value = Decimal::of_numeral(&self.source, self.start, self.current);
        self.add_token(TokenType::Number(value));
    }

    fn is_digit(c: Option<char>) -> (yes: bool)
        ensures
            yes == (c matches Some(x) && is_digit(x)),
    {
        match c {
            Some(c) => '0' <= c && c <= '9',
            None => false,
        }
    }

    /// Whether `c` is a character of `class`.
    fn is_in_class(c: Option<char>, class: CharClass) -> (yes: bool)
        ensures
            yes == (c matches Some(x) && in_class(x, class)),
    {
        match class {
            CharClass::Digit => Scanner::is_digit(c),
            CharClass::Word => Scanner::is_alphanumeric(c),
            CharClass::NotNewline => match c {
                Some(c) => c != '\n',
                None => false,
            },
            CharClass::NotQuote => match c {
                Some(c) => c != '"',
                None => false,
            },
        }
    }

    /// Consumes the maximal run of `class` characters at the cursor.
    fn skip_run(&mut self, class: CharClass)
        requires
            old(self)@.cursor_ok(),
        ensures
            final(self)@.cursor_ok(),
            final(self)@.moved_from(old(self)@),
            final(self)@.current == run_end(old(self)@.source, old(self)@.current as int, class),
            old(self)@.current <= final(self)@.current,
            forall|k: int|
                old(self)@.current <= k < final(self)@.current ==> in_class(
                    #[trigger] old(self)@.source[k],
                    class,
                ),
            final(self)@.current < old(self)@.source.len() ==> !in_class(
                old(self)@.source[final(self)@.current as int],
                class,
            ),
            class != CharClass::NotQuote ==> final(self)@.line == old(self)@.line,
    {
        let ghost before = self@;
        while Scanner::is_in_class(self.peek(), class)
            invariant
                self@.cursor_ok(),
                self@.moved_from(before),
                before.current <= self@.current,
                forall|k: int|
                    before.current <= k < self@.current ==> in_class(
                        #[trigger] before.source[k],
                        class,
                    ),
                class != CharClass::NotQuote ==> self@.line == before.line,
            decreases self@.source.len() - self@.current,
        {
            self.advance();
        }
        proof {
            lemma_run_end_is(before.source, before.current as int, self@.current as int, class);
        }
    }

    /// Consumes the rest of the line; the line feed stays.
    fn line_comment(&mut self)
        requires
            old(self)@.cursor_ok(),
        ensures
            final(self)@.cursor_ok(),
            final(self)@.moved_from(old(self)@),
            final(self)@.current == run_end(
                old(self)@.source,
                old(self)@.current as int,
                CharClass::NotNewline,
            ),
    {
        self.skip_run(CharClass::NotNewline);
    }

    /// Consumes a block comment whose opener has been consumed. Comments
    /// nest: the running count of open comments starts at one, and the
    /// comment ends where it comes back to zero.
    fn block_comment(&mut self)
        requires
            old(self)@.cursor_ok(),
            old(self)@.current == old(self)@.start + 2,
            old(self)@.source[old(self)@.start as int] != '\n',
            old(self)@.source[old(self)@.start as int + 1] != '\n',
        ensures
            final(self)@.cursor_ok(),
            match comment_end(old(self)@.source, old(self)@.current as int, 1) {
                Some(end) => final(self)@.current == end && final(self)@.moved_from(old(self)@),
                None => {
                    &&& final(self)@.current == old(self)@.source.len()
                    &&& final(self)@.added_diagnostic(
                        ScannerView {
                            current: final(self)@.current,
                            line: final(self)@.line,
                            ..old(self)@
                        },
                        line_at(old(self)@.source, old(self)@.start as int),
                        LexicalError::UnterminatedComment,
                    )
                },
            },
    {
        let ghost before = self@;
        let opening_line = self.line;
        proof {
            lemma_line_at_next(before.source, before.start as int);
            lemma_line_at_next(before.source, before.start as int + 1);
        }
        let mut running_comment_count: usize = 1;
        while running_comment_count > 0 && !self.is_at_end()
            invariant
                self@.cursor_ok(),
                self@.moved_from(before),
                before.current <= self@.current,
                running_comment_count <= self@.current,
                comment_end(before.source, before.current as int, 1) == comment_end(
                    self@.source,
                    self@.current as int,
                    running_comment_count as nat,
                ),
            decreases self@.source.len() - self@.current,
        {
            if self.peek() == Some('/') && self.peek_next() == Some('*') {
                assert(running_comment_count < self.source.len());
                running_comment_count += 1;
                self.advance();
            } else if self.peek() == Some('*') && self.peek_next() == Some('/') {
                running_comment_count -= 1;
                self.advance();
            }
            self.advance();
        }
        if running_comment_count > 0 {
            self.add_diagnostic(opening_line, LexicalError::UnterminatedComment);
        }
    }

    fn peek(&self) -> (c: Option<char>)
        ensures
            c == (if self@.current < self@.source.len() {
                Some(self@.source[self@.current as int])
            } else {
                None
            }),
    {
        if self.current < self.source.len() {
            Some(self.source[self.current])
        } else {
            None
        }
    }

    fn peek_next(&self) -> (c: Option<char>)
        ensures
            c == (if self@.current + 1 < self@.source.len() {
                Some(self@.source[self@.current as int + 1])
            } else {
                None
            }),
    {
        if self.current < self.source.len() && self.current + 1 < self.source.len() {
            Some(self.source[self.current + 1])
        } else {
            None
        }
    }

    /// Scans the whole source and returns every token, closed by the
    /// end of input token. Scanning a source that has been scanned
    /// changes nothing.
    pub fn scan_tokens(&mut self) -> (tokens: &Vec<Token>)
        requires
            old(self)@.wf(),
        ensures
            final(self)@.wf(),
            final(self)@.finished,
            final(self)@.source == old(self)@.source,
            final(self)@.current == old(self)@.source.len(),
            final(self)@.tokens == lex(old(self)@.source).tokens,
            final(self)@.diagnostics == lex(old(self)@.source).diagnostics,
            token_views(tokens@) == lex(old(self)@.source).tokens,
            tokens@.len() >= 1,
            tokens@.last().token_type@ is Eof,
            forall|i: int| 0 <= i < tokens@.len() - 1 ==> !(#[trigger] tokens@[i].token_type@ is Eof),
    {
        let ghost src = self@.source;
        while !self.is_at_end()
            invariant
                self@.wf(),
                self@.source == src,
                self@.finished == old(self)@.finished,
            decreases self@.source.len() - self@.current,
        {
            proof {
                lemma_step_advances(src, self@.current as int);
            }
            self.scan_token();
        }
        if !self.finished {
            let ghost tokens_before = self.tokens@;
            let token = Token { token_type: TokenType::Eof, lexeme: None, line: self.line };
            self.tokens.push(token);
            self.finished = true;
            proof {
                lemma_token_views_push(tokens_before, token);
                assert(self@.tokens =~= lex(src).tokens);
            }
        }
        proof {
            lemma_lex_ends_with_eof(src);
            let views = token_views(self.tokens@);
            assert forall|i: int| 0 <= i < self.tokens@.len() - 1 implies !(self.tokens@[i].token_type@ is Eof) by {
                assert(views[i] == self.tokens@[i]@);
            }
        }
        &self.tokens
    }

    /// Consumes `expected` if it is the next character.
    fn match_next(&mut self, expected: char) -> (matched: bool)
        requires
            old(self)@.cursor_ok(),
        ensures
            final(self)@.cursor_ok(),
            final(self)@.moved_from(old(self)@),
            matched == has_at(old(self)@.source, old(self)@.current as int, expected),
            final(self)@.current == old(self)@.current + if matched {
                1nat
            } else {
                0nat
            },
    {
        if self.is_at_end() {
            return false;
        }
        if self.source[self.current] != expected {
            return false;
        }
        self.advance();
        true
    }

    /// Adds a token of the given kind for the text between the cursors.
    fn add_token(&mut self, token_type: TokenType)
        requires
            old(self)@.cursor_ok(),
        ensures
            final(self)@.added_token(old(self)@, token_type@),
    {
        let ghost tokens_before = self.tokens@;
        let token = Token {
            token_type,
            lexeme: Some(collect_range(&self.source, self.start, self.current)),
            line: self.line,
        };
        self.tokens.push(token);
        proof {
            lemma_token_views_push(tokens_before, token);
        }
    }

    /// Records `error` at `line`.
    fn add_diagnostic(&mut self, line: usize, error: LexicalError)
        ensures
            final(self)@.added_diagnostic(old(self)@, line as nat, error),
    {
        let ghost diagnostics_before = self.diagnostics@;
        let diagnostic = Diagnostic { line, error };
        self.diagnostics.push(diagnostic);
        proof {
            lemma_diagnostic_views_push(diagnostics_before, diagnostic);
        }
    }

    /// Consumes the next character, if there is one, and counts the
    /// line where it is a line feed.
    fn advance(&mut self) -> (c: Option<char>)
        requires
            old(self)@.cursor_ok(),
        ensures
            final(self)@.cursor_ok(),
            final(self)@.moved_from(old(self)@),
            c == (if old(self)@.current < old(self)@.source.len() {
                Some(old(self)@.source[old(self)@.current as int])
            } else {
                None
            }),
            final(self)@.current == old(self)@.current + if c is Some {
                1nat
            } else {
                0nat
            },
            final(self)@.line == old(self)@.line + if c == Some('\n') {
                1nat
            } else {
                0nat
            },
    {
        if self.current >= self.source.len() {
            return None;
        }
        let c = self.source[self.current];
        proof {
            lemma_line_at_next(self@.source, self@.current as int);
            lemma_line_at_monotone(self@.source, 0, self@.current as int);
        }
        self.current += 1;
        if c == '\n' {
            self.line += 1;
        }
        Some(c)
    }

    /// Whether every character of the source has been consumed.
    pub fn is_at_end(&self) -> (at_end: bool)
        ensures
            at_end == (self@.current >= self@.source.len()),
    {
        self.current >= self.source.len()
    }

    /// The tokens produced so far.
    pub fn tokens(&self) -> (tokens: &Vec<Token>)
        ensures
            token_views(tokens@) == self@.tokens,
    {
        &self.tokens
    }

    /// The diagnostics produced so far.
    pub fn diagnostics(&self) -> (diagnostics: &Vec<Diagnostic>)
        ensures
            diagnostic_views(diagnostics@) == self@.diagnostics,
    {
        &self.diagnostics
    }

    /// Gives up the scanner for what it has produced.
    pub fn into_parts(self) -> (parts: (Vec<Token>, Vec<Diagnostic>))
        ensures
            token_views(parts.0@) == self@.tokens,
            diagnostic_views(parts.1@) == self@.diagnostics,
    {
        (self.tokens, self.diagnostics)
    }
}

/// Scans `source` from beginning to end: every token in source order,
/// closed by exactly one end of input token, and every diagnostic.
pub fn scan(source: String) -> (scanned: (Vec<Token>, Vec<Diagnostic>))
    ensures
        token_views(scanned.0@) == lex(source@).tokens,
        diagnostic_views(scanned.1@) == lex(source@).diagnostics,
        scanned.0@.len() >= 1,
        scanned.0@.last().token_type@ is Eof,
        forall|i: int|
            0 <= i < scanned.0@.len() - 1 ==> !(#[trigger] scanned.0@[i].token_type@ is Eof),
{
    let mut scanner = Scanner::new(source);
    scanner.scan_tokens();
    let scanned = scanner.into_parts();
    proof {
        lemma_lex_ends_with_eof(source@);
        let views = token_views(scanned.0@);
        assert forall|i: int| 0 <= i < scanned.0@.len() - 1 implies !(scanned.0@[i].token_type@ is Eof) by {
            assert(views[i] == scanned.0@[i]@);
        }
    }
    scanned
}

} // verus!
