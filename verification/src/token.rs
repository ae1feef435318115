//! Tokens: a kind, the text it was scanned from, and its line.

use vstd::prelude::*;
use crate::text::{decimal_digits, push_decimal};
use crate::token_type::{token_type_text, TokenType, TokenTypeView};

verus! {

/// One lexical unit of the source.
#[derive(Clone, Debug, PartialEq, Eq)]
pub struct Token {
    /// The kind of the token, with its payload.
    pub token_type: TokenType,
    /// The text the token was scanned from; `None` for the end of input.
    pub lexeme: Option<String>,
    /// The 0-based line on which the token ends.
    pub line: usize,
}

/// The mathematical content of a [`Token`].
pub struct TokenView {
    pub kind: TokenTypeView,
    pub lexeme: Option<Seq<char>>,
    pub line: nat,
}

impl View for Token {
    type V = TokenView;

    open spec fn view(&self) -> TokenView {
        TokenView {
            kind: self.token_type@,
            lexeme: match self.lexeme {
                Some(text) => Some(text@),
                None => None,
            },
            line: self.line as nat,
        }
    }
}

/// The views of a vector of tokens, in order.
pub open spec fn token_views(tokens: Seq<Token>) -> Seq<TokenView> {
    Seq::new(tokens.len(), |i: int| tokens[i]@)
}

/// How a token is displayed: its kind, its lexeme where it has one, and
/// its line.
pub open spec fn token_text(token: TokenView) -> Seq<char> {
    match token.lexeme {
        Some(lexeme) => "Token { "@ + token_type_text(token.kind) + ", lexeme: "@ + lexeme
            + ", line: "@ + decimal_digits(token.line) + " }"@,
        None => "Token { "@ + token_type_text(token.kind) + ", line: "@ + decimal_digits(
            token.line,
        ) + " }"@,
    }
}

/// Whether two tokens agree in everything but their position.
pub open spec fn same_token(a: TokenView, b: TokenView) -> bool {
    a.kind == b.kind && a.lexeme == b.lexeme
}

impl Token {
    /// The display form of the token: see [`token_text`].
    pub fn to_string(&self) -> (text: String)
        ensures
            text@ == token_text(self@),
    {
        let mut text = String::from_str("Token { ");
        let kind = self.token_type.to_string();
        text.append(kind.as_str());
        match &self.lexeme {
            Some(lexeme) => {
                text.append(", lexeme: ");
                text.append(lexeme.as_str());
            },
            None => {},
        }
        text.append(", line: ");
        push_decimal(&mut text, self.line);
        text.append(" }");
        text
    }

    /// Whether both tokens have the same kind, payload and lexeme. The
    /// line plays no part.
    pub fn same_as(&self, other: &Token) -> (same: bool)
        ensures
            same == same_token(self@, other@),
    {
        let same_lexeme = match (&self.lexeme, &other.lexeme) {
            (Some(a), Some(b)) => a.as_str().eq(b.as_str()),
            (None, None) => true,
            _ => false,
        };
        same_lexeme && self.token_type.same_as(&other.token_type)
    }
}

} // verus!
