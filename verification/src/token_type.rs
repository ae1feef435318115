//! The closed set of lexical categories.

use vstd::prelude::*;
use crate::number::{decimal_form, Decimal, DecimalView};

verus! {

/// The kinds of tokens. The three literal kinds carry their payload.
#[derive(Clone, Debug, PartialEq, Eq)]
pub enum TokenType {
    // Single-character tokens.
    LeftParen,
    RightParen,
    LeftBrace,
    RightBrace,
    Comma,
    Dot,
    Minus,
    Plus,
    Semicolon,
    Slash,
    Star,
    // One or two character tokens.
    Bang,
    BangEqual,
    Equal,
    EqualEqual,
    Greater,
    GreaterEqual,
    Less,
    LessEqual,
    // Literals.
    /// A name, with its text.
    Identifier(String),
    /// A string literal, with the text between its quotes.
    LoxString(String),
    /// A number literal, with its value.
    Number(Decimal),
    // Keywords.
    And,
    Class,
    Else,
    False,
    Fun,
    For,
    If,
    Nil,
    Or,
    Print,
    Return,
    Super,
    This,
    True,
    Var,
    While,
    /// The end of the input.
    Eof,
}

/// The mathematical content of a [`TokenType`].
pub enum TokenTypeView {
    // Single-character tokens.
    LeftParen,
    RightParen,
    LeftBrace,
    RightBrace,
    Comma,
    Dot,
    Minus,
    Plus,
    Semicolon,
    Slash,
    Star,
    // One or two character tokens.
    Bang,
    BangEqual,
    Equal,
    EqualEqual,
    Greater,
    GreaterEqual,
    Less,
    LessEqual,
    // Literals.
    /// A name, with its text.
    Identifier(Seq<char>),
    /// A string literal, with the text between its quotes.
    LoxString(Seq<char>),
    /// A number literal, with its value.
    Number(DecimalView),
    // Keywords.
    And,
    Class,
    Else,
    False,
    Fun,
    For,
    If,
    Nil,
    Or,
    Print,
    Return,
    Super,
    This,
    True,
    Var,
    While,
    /// The end of the input.
    Eof,
}

impl View for TokenType {
    type V = TokenTypeView;

    open spec fn view(&self) -> TokenTypeView {
        match self {
            TokenType::LeftParen => TokenTypeView::LeftParen,
            TokenType::RightParen => TokenTypeView::RightParen,
            TokenType::LeftBrace => TokenTypeView::LeftBrace,
            TokenType::RightBrace => TokenTypeView::RightBrace,
            TokenType::Comma => TokenTypeView::Comma,
            TokenType::Dot => TokenTypeView::Dot,
            TokenType::Minus => TokenTypeView::Minus,
            TokenType::Plus => TokenTypeView::Plus,
            TokenType::Semicolon => TokenTypeView::Semicolon,
            TokenType::Slash => TokenTypeView::Slash,
            TokenType::Star => TokenTypeView::Star,
            TokenType::Bang => TokenTypeView::Bang,
            TokenType::BangEqual => TokenTypeView::BangEqual,
            TokenType::Equal => TokenTypeView::Equal,
            TokenType::EqualEqual => TokenTypeView::EqualEqual,
            TokenType::Greater => TokenTypeView::Greater,
            TokenType::GreaterEqual => TokenTypeView::GreaterEqual,
            TokenType::Less => TokenTypeView::Less,
            TokenType::LessEqual => TokenTypeView::LessEqual,
            TokenType::Identifier(text) => TokenTypeView::Identifier(text@),
            TokenType::LoxString(text) => TokenTypeView::LoxString(text@),
            TokenType::Number(value) => TokenTypeView::Number(value@),
            TokenType::And => TokenTypeView::And,
            TokenType::Class => TokenTypeView::Class,
            TokenType::Else => TokenTypeView::Else,
            TokenType::False => TokenTypeView::False,
            TokenType::Fun => TokenTypeView::Fun,
            TokenType::For => TokenTypeView::For,
            TokenType::If => TokenTypeView::If,
            TokenType::Nil => TokenTypeView::Nil,
            TokenType::Or => TokenTypeView::Or,
            TokenType::Print => TokenTypeView::Print,
            TokenType::Return => TokenTypeView::Return,
            TokenType::Super => TokenTypeView::Super,
            TokenType::This => TokenTypeView::This,
            TokenType::True => TokenTypeView::True,
            TokenType::Var => TokenTypeView::Var,
            TokenType::While => TokenTypeView::While,
            TokenType::Eof => TokenTypeView::Eof,
        }
    }
}

/// The reserved word that `text` spells, if it spells one.
pub open spec fn keyword(text: Seq<char>) -> Option<TokenTypeView> {
    if text == "and"@ {
        Some(TokenTypeView::And)
    } else if text == "class"@ {
        Some(TokenTypeView::Class)
    } else if text == "else"@ {
        Some(TokenTypeView::Else)
    } else if text == "false"@ {
        Some(TokenTypeView::False)
    } else if text == "fun"@ {
        Some(TokenTypeView::Fun)
    } else if text == "for"@ {
        Some(TokenTypeView::For)
    } else if text == "if"@ {
        Some(TokenTypeView::If)
    } else if text == "nil"@ {
        Some(TokenTypeView::Nil)
    } else if text == "or"@ {
        Some(TokenTypeView::Or)
    } else if text == "print"@ {
        Some(TokenTypeView::Print)
    } else if text == "return"@ {
        Some(TokenTypeView::Return)
    } else if text == "super"@ {
        Some(TokenTypeView::Super)
    } else if text == "this"@ {
        Some(TokenTypeView::This)
    } else if text == "true"@ {
        Some(TokenTypeView::True)
    } else if text == "var"@ {
        Some(TokenTypeView::Var)
    } else if text == "while"@ {
        Some(TokenTypeView::While)
    } else {
        None
    }
}

/// An identifier whose text spells a reserved word becomes that word's
/// kind; every other kind stays as it is.
pub open spec fn resolve_keyword(kind: TokenTypeView) -> TokenTypeView {
    match kind {
        TokenTypeView::Identifier(text) => match keyword(text) {
            Some(reserved) => reserved,
            None => kind,
        },
        _ => kind,
    }
}

/// How a kind is displayed: its name, with the payload in parentheses
/// where it carries one.
pub open spec fn token_type_text(kind: TokenTypeView) -> Seq<char> {
    match kind {
        TokenTypeView::LeftParen => "LeftParen"@,
        TokenTypeView::RightParen => "RightParen"@,
        TokenTypeView::LeftBrace => "LeftBrace"@,
        TokenTypeView::RightBrace => "RightBrace"@,
        TokenTypeView::Comma => "Comma"@,
        TokenTypeView::Dot => "Dot"@,
        TokenTypeView::Minus => "Minus"@,
        TokenTypeView::Plus => "Plus"@,
        TokenTypeView::Semicolon => "Semicolon"@,
        TokenTypeView::Slash => "Slash"@,
        TokenTypeView::Star => "Star"@,
        TokenTypeView::Bang => "Bang"@,
        TokenTypeView::BangEqual => "BangEqual"@,
        TokenTypeView::Equal => "Equal"@,
        TokenTypeView::EqualEqual => "EqualEqual"@,
        TokenTypeView::Greater => "Greater"@,
        TokenTypeView::GreaterEqual => "GreaterEqual"@,
        TokenTypeView::Less => "Less"@,
        TokenTypeView::LessEqual => "LessEqual"@,
        TokenTypeView::Identifier(text) => "Identifier("@ + text + ")"@,
        TokenTypeView::LoxString(text) => "LoxString("@ + text + ")"@,
        TokenTypeView::Number(value) => "Number("@ + decimal_form(value) + ")"@,
        TokenTypeView::And => "And"@,
        TokenTypeView::Class => "Class"@,
        TokenTypeView::Else => "Else"@,
        TokenTypeView::False => "False"@,
        TokenTypeView::Fun => "Fun"@,
        TokenTypeView::For => "For"@,
        TokenTypeView::If => "If"@,
        TokenTypeView::Nil => "Nil"@,
        TokenTypeView::Or => "Or"@,
        TokenTypeView::Print => "Print"@,
        TokenTypeView::Return => "Return"@,
        TokenTypeView::Super => "Super"@,
        TokenTypeView::This => "This"@,
        TokenTypeView::True => "True"@,
        TokenTypeView::Var => "Var"@,
        TokenTypeView::While => "While"@,
        TokenTypeView::Eof => "Eof"@,
    }
}

impl TokenType {
    /// If this is an identifier whose text is a reserved word, the kind
    /// of that word; otherwise the kind itself.
    pub fn check_keyword(self) -> (resolved: TokenType)
        ensures
            resolved@ == resolve_keyword(self@),
    {
        match self {
            TokenType::Identifier(text) => {
                let word = text.as_str();
                if word.eq("and") {
                    TokenType::And
                } else if word.eq("class") {
                    TokenType::Class
                } else if word.eq("else") {
                    TokenType::Else
                } else if word.eq("false") {
                    TokenType::False
                } else if word.eq("fun") {
                    TokenType::Fun
                } else if word.eq("for") {
                    TokenType::For
                } else if word.eq("if") {
                    TokenType::If
                } else if word.eq("nil") {
                    TokenType::Nil
                } else if word.eq("or") {
                    TokenType::Or
                } else if word.eq("print") {
                    TokenType::Print
                } else if word.eq("return") {
                    TokenType::Return
                } else if word.eq("super") {
                    TokenType::Super
                } else if word.eq("this") {
                    TokenType::This
                } else if word.eq("true") {
                    TokenType::True
                } else if word.eq("var") {
                    TokenType::Var
                } else if word.eq("while") {
                    TokenType::While
                } else {
                    TokenType::Identifier(text)
                }
            },
            other => other,
        }
    }

    /// The display form of the kind: see [`token_type_text`].
    pub fn to_string(&self) -> (text: String)
        ensures
            text@ == token_type_text(self@),
    {
        match self {
            TokenType::LeftParen => String::from_str("LeftParen"),
            TokenType::RightParen => String::from_str("RightParen"),
            TokenType::LeftBrace => String::from_str("LeftBrace"),
            TokenType::RightBrace => String::from_str("RightBrace"),
            TokenType::Comma => String::from_str("Comma"),
            TokenType::Dot => String::from_str("Dot"),
            TokenType::Minus => String::from_str("Minus"),
            TokenType::Plus => String::from_str("Plus"),
            TokenType::Semicolon => String::from_str("Semicolon"),
            TokenType::Slash => String::from_str("Slash"),
            TokenType::Star => String::from_str("Star"),
            TokenType::Bang => String::from_str("Bang"),
            TokenType::BangEqual => String::from_str("BangEqual"),
            TokenType::Equal => String::from_str("Equal"),
            TokenType::EqualEqual => String::from_str("EqualEqual"),
            TokenType::Greater => String::from_str("Greater"),
            TokenType::GreaterEqual => String::from_str("GreaterEqual"),
            TokenType::Less => String::from_str("Less"),
            TokenType::LessEqual => String::from_str("LessEqual"),
            TokenType::Identifier(text) => {
                let mut out = String::from_str("Identifier(");
                out.append(text.as_str());
                out.append(")");
                out
            },
            TokenType::LoxString(text) => {
                let mut out = String::from_str("LoxString(");
                out.append(text.as_str());
                out.append(")");
                out
            },
            TokenType::Number(value) => {
                let mut out = String::from_str("Number(");
                let digits = value.to_string();
                out.append(digits.as_str());
                out.append(")");
                out
            },
            TokenType::And => String::from_str("And"),
            TokenType::Class => String::from_str("Class"),
            TokenType::Else => String::from_str("Else"),
            TokenType::False => String::from_str("False"),
            TokenType::Fun => String::from_str("Fun"),
            TokenType::For => String::from_str("For"),
            TokenType::If => String::from_str("If"),
            TokenType::Nil => String::from_str("Nil"),
            TokenType::Or => String::from_str("Or"),
            TokenType::Print => String::from_str("Print"),
            TokenType::Return => String::from_str("Return"),
            TokenType::Super => String::from_str("Super"),
            TokenType::This => String::from_str("This"),
            TokenType::True => String::from_str("True"),
            TokenType::Var => String::from_str("Var"),
            TokenType::While => String::from_str("While"),
            TokenType::Eof => String::from_str("Eof"),
        }
    }

    /// Whether both kinds are the same, payload included.
    pub fn same_as(&self, other: &TokenType) -> (same: bool)
        ensures
            same == (self@ == other@),
    {
        match (self, other) {
            (TokenType::LeftParen, TokenType::LeftParen) => true,
            (TokenType::RightParen, TokenType::RightParen) => true,
            (TokenType::LeftBrace, TokenType::LeftBrace) => true,
            (TokenType::RightBrace, TokenType::RightBrace) => true,
            (TokenType::Comma, TokenType::Comma) => true,
            (TokenType::Dot, TokenType::Dot) => true,
            (TokenType::Minus, TokenType::Minus) => true,
            (TokenType::Plus, TokenType::Plus) => true,
            (TokenType::Semicolon, TokenType::Semicolon) => true,
            (TokenType::Slash, TokenType::Slash) => true,
            (TokenType::Star, TokenType::Star) => true,
            (TokenType::Bang, TokenType::Bang) => true,
            (TokenType::BangEqual, TokenType::BangEqual) => true,
            (TokenType::Equal, TokenType::Equal) => true,
            (TokenType::EqualEqual, TokenType::EqualEqual) => true,
            (TokenType::Greater, TokenType::Greater) => true,
            (TokenType::GreaterEqual, TokenType::GreaterEqual) => true,
            (TokenType::Less, TokenType::Less) => true,
            (TokenType::LessEqual, TokenType::LessEqual) => true,
            (TokenType::Identifier(a), TokenType::Identifier(b)) => a.as_str().eq(b.as_str()),
            (TokenType::LoxString(a), TokenType::LoxString(b)) => a.as_str().eq(b.as_str()),
            (TokenType::Number(a), TokenType::Number(b)) => a.same_as(b),
            (TokenType::And, TokenType::And) => true,
            (TokenType::Class, TokenType::Class) => true,
            (TokenType::Else, TokenType::Else) => true,
            (TokenType::False, TokenType::False) => true,
            (TokenType::Fun, TokenType::Fun) => true,
            (TokenType::For, TokenType::For) => true,
            (TokenType::If, TokenType::If) => true,
            (TokenType::Nil, TokenType::Nil) => true,
            (TokenType::Or, TokenType::Or) => true,
            (TokenType::Print, TokenType::Print) => true,
            (TokenType::Return, TokenType::Return) => true,
            (TokenType::Super, TokenType::Super) => true,
            (TokenType::This, TokenType::This) => true,
            (TokenType::True, TokenType::True) => true,
            (TokenType::Var, TokenType::Var) => true,
            (TokenType::While, TokenType::While) => true,
            (TokenType::Eof, TokenType::Eof) => true,
            _ => false,
        }
    }
}

} // verus!
