//! The interpreter's driver: runs source text through the scanner and
//! words the reports of what went wrong.

use vstd::prelude::*;
use crate::diagnostic::{diagnostic_views, error_message, Diagnostic};
use crate::grammar::lex;
use crate::scanner::scan;
use crate::text::{decimal_digits, push_decimal};
use crate::token::{token_views, Token};

verus! {

/// The interpreter.
pub struct Lox {
    had_error: bool,
}

/// A report as shown to the user: the line, where on it the error lies,
/// and the message.
pub open spec fn report_text(line: nat, location: Seq<char>, message: Seq<char>) -> Seq<char> {
    "[line "@ + decimal_digits(line) + "] Error"@ + location + ": "@ + message
}

impl Lox {
    /// Whether a run has met an error since the flag was last cleared.
    pub closed spec fn failed(&self) -> bool {
        self.had_error
    }

    /// An interpreter that has met no error.
    pub fn new() -> (lox: Lox)
        ensures
            !lox.failed(),
    {
        Self { had_error: false }
    }

    /// Scans `source` and hands back its tokens and diagnostics. A
    /// diagnostic marks the interpreter as failed.
    pub fn run(&mut self, source: String) -> (scanned: (Vec<Token>, Vec<Diagnostic>))
        ensures
            token_views(scanned.0@) == lex(source@).tokens,
            diagnostic_views(scanned.1@) == lex(source@).diagnostics,
            final(self).failed() == (old(self).failed() || lex(source@).diagnostics.len() > 0),
    {
        let scanned = scan(source);
        if scanned.1.len() > 0 {
            self.had_error = true;
        }
        scanned
    }

    /// The report of an error on `line`.
    pub fn error(line: usize, message: String) -> (text: String)
        ensures
            text@ == report_text(line as nat, Seq::empty(), message@),
    {
        Self::report(line, String::new(), message)
    }

    /// The report of an error on `line`, at `location`.
    pub fn report(line: usize, location: String, message: String) -> (text: String)
        ensures
            text@ == report_text(line as nat, location@, message@),
    {
        let mut text = String::from_str("[line ");
        push_decimal(&mut text, line);
        text.append("] Error");
        text.append(location.as_str());
        text.append(": ");
        text.append(message.as_str());
        text
    }

    /// The reports of `diagnostics`, one for each and in their order.
    pub fn reports(diagnostics: &Vec<Diagnostic>) -> (texts: Vec<String>)
        ensures
            texts@.len() == diagnostics@.len(),
            forall|i: int|
                0 <= i < texts@.len() ==> (#[trigger] texts@[i])@ == report_text(
                    diagnostics@[i].line as nat,
                    Seq::empty(),
                    error_message(diagnostics@[i].error),
                ),
    {
        let mut texts: Vec<String> = Vec::new();
        let mut i: usize = 0;
        while i < diagnostics.len()
            invariant
                i <= diagnostics@.len(),
                texts@.len() == i,
                forall|k: int|
                    0 <= k < i ==> (#[trigger] texts@[k])@ == report_text(
                        diagnostics@[k].line as nat,
                        Seq::empty(),
                        error_message(diagnostics@[k].error),
                    ),
            decreases diagnostics@.len() - i,
        {
            let diagnostic = &diagnostics[i];
            texts.push(Self::error(diagnostic.line, diagnostic.error.message()));
            i += 1;
        }
        texts
    }

    /// Whether a run has met an error since the flag was last cleared.
    pub fn had_error(&self) -> (failed: bool)
        ensures
            failed == self.failed(),
    {
        self.had_error
    }

    /// Clears the error flag.
    pub fn clear_error(&mut self)
        ensures
            !final(self).failed(),
    {
        self.had_error = false;
    }
}

} // verus!
