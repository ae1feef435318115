//! What the scanner reports about text that is no token.

use vstd::prelude::*;

verus! {

/// The lexical errors.
#[derive(Clone, Copy, Debug, PartialEq, Eq, Structural)]
pub enum LexicalError {
    /// The input ended inside a string literal.
    UnterminatedString,
    /// The input ended inside a block comment.
    UnterminatedComment,
    /// The character starts no token.
    UnexpectedCharacter(char),
}

/// A lexical error and the 0-based line on which the offending text
/// starts.
#[derive(Clone, Copy, Debug, PartialEq, Eq, Structural)]
pub struct Diagnostic {
    pub line: usize,
    pub error: LexicalError,
}

/// The mathematical content of a [`Diagnostic`].
pub struct DiagnosticView {
    pub line: nat,
    pub error: LexicalError,
}

impl View for Diagnostic {
    type V = DiagnosticView;

    open spec fn view(&self) -> DiagnosticView {
        DiagnosticView { line: self.line as nat, error: self.error }
    }
}

/// The views of a vector of diagnostics, in order.
pub open spec fn diagnostic_views(diagnostics: Seq<Diagnostic>) -> Seq<DiagnosticView> {
    Seq::new(diagnostics.len(), |i: int| diagnostics[i]@)
}

/// The message of an error, as shown to the user.
pub open spec fn error_message(error: LexicalError) -> Seq<char> {
    match error {
        LexicalError::UnterminatedString => "Unterminated string."@,
        LexicalError::UnterminatedComment => "Unterminated comment."@,
        LexicalError::UnexpectedCharacter(c) => "Unexpected character: "@.push(c),
    }
}

impl LexicalError {
    /// The message of the error: see [`error_message`].
    pub fn message(&self) -> (text: String)
        ensures
            text@ == error_message(*self),
    {
        match self {
            LexicalError::UnterminatedString => String::from_str("Unterminated string."),
            LexicalError::UnterminatedComment => String::from_str("Unterminated comment."),
            LexicalError::UnexpectedCharacter(c) => {
                let mut text = String::from_str("Unexpected character: ");
                text.push(*c);
                text
            },
        }
    }
}

} // verus!
