//! The expression tree and its canonical rendering.
//!
//! Each node owns its operands, and an operand slot only takes a type
//! that is itself an expression, so a tree is well formed by its type.
//! The rendering is the fully parenthesized prefix form.

use vstd::prelude::*;
use crate::token::{Token, TokenView};

verus! {

/// The text of a token's lexeme, or nothing where it has none.
pub open spec fn lexeme_text(token: TokenView) -> Seq<char> {
    match token.lexeme {
        Some(lexeme) => lexeme,
        None => Seq::empty(),
    }
}

/// The rendering of a grouping around an expression rendered as `inner`.
pub open spec fn grouping_text(inner: Seq<char>) -> Seq<char> {
    "(group "@ + inner + ")"@
}

/// The rendering of a unary operation: the operator's lexeme, a space
/// and the operand, in parentheses. An operator without a lexeme
/// leaves only the operand between the parentheses.
pub open spec fn unary_text(operator: TokenView, right: Seq<char>) -> Seq<char> {
    match operator.lexeme {
        Some(lexeme) => "("@ + lexeme + " "@ + right + ")"@,
        None => "("@ + right + ")"@,
    }
}

/// The rendering of a binary operation: the operator's lexeme and both
/// operands, separated by spaces, in parentheses.
pub open spec fn binary_text(operator: TokenView, left: Seq<char>, right: Seq<char>) -> Seq<
    char,
> {
    "("@ + lexeme_text(operator) + " "@ + left + " "@ + right + ")"@
}

/// An expression: anything that can stand as an operand.
pub trait Expr {
    /// The canonical rendering of the expression.
    spec fn rendering(&self) -> Seq<char>;

    /// Renders the expression in its canonical form.
    fn render(&self) -> (text: String)
        ensures
            text@ == self.rendering(),
    ;
}

/// A literal value.
#[derive(Debug)]
pub struct Literal {
    pub value: Token,
}

/// A parenthesized expression.
#[derive(Debug)]
pub struct Grouping<G: Expr> {
    pub expression: G,
}

/// A prefix operator applied to an operand.
#[derive(Debug)]
pub struct Unary<R: Expr> {
    pub operator: Token,
    pub right: R,
}

/// An infix operator applied to two operands.
#[derive(Debug)]
pub struct Binary<L: Expr, R: Expr> {
    pub left: L,
    pub operator: Token,
    pub right: R,
}

/// An operator by itself.
#[derive(Debug)]
pub struct Operator {
    pub operator: Token,
}

impl Literal {
    pub fn new(value: Token) -> (literal: Literal)
        ensures
            literal.value == value,
    {
        Literal { value }
    }
}

impl<G: Expr> Grouping<G> {
    pub fn new(expression: G) -> (grouping: Grouping<G>)
        ensures
            grouping.expression == expression,
    {
        Grouping { expression }
    }
}

impl<R: Expr> Unary<R> {
    pub fn new(operator: Token, right: R) -> (unary: Unary<R>)
        ensures
            unary.operator == operator,
            unary.right == right,
    {
        Unary { operator, right }
    }
}

impl<L: Expr, R: Expr> Binary<L, R> {
    pub fn new(left: L, operator: Token, right: R) -> (binary: Binary<L, R>)
        ensures
            binary.left == left,
            binary.operator == operator,
            binary.right == right,
    {
        Binary { left, operator, right }
    }
}

impl Operator {
    pub fn new(operator: Token) -> (op: Operator)
        ensures
            op.operator == operator,
    {
        Operator { operator }
    }
}

impl Expr for Literal {
    open spec fn rendering(&self) -> Seq<char> {
        lexeme_text(self.value@)
    }

    fn render(&self) -> (text: String) {
        match &self.value.lexeme {
            Some(lexeme) => lexeme.clone(),
            None => String::new(),
        }
    }
}

impl<R: Expr> Expr for Unary<R> {
    open spec fn rendering(&self) -> Seq<char> {
        unary_text(self.operator@, self.right.rendering())
    }

    fn render(&self) -> (text: String) {
        let mut text = String::from_str("(");
        match &self.operator.lexeme {
            Some(lexeme) => {
                text.append(lexeme.as_str());
                text.append(" ");
            },
            None => {},
        }
        let right = self.right.render();
        text.append(right.as_str());
        text.append(")");
        text
    }
}

impl<L: Expr, R: Expr> Expr for Binary<L, R> {
    open spec fn rendering(&self) -> Seq<char> {
        binary_text(self.operator@, self.left.rendering(), self.right.rendering())
    }

    fn render(&self) -> (text: String) {
        let mut text = String::from_str("(");
        match &self.operator.lexeme {
            Some(lexeme) => {
                text.append(lexeme.as_str());
            },
            None => {},
        }
        text.append(" ");
        let left = self.left.render();
        text.append(left.as_str());
        text.append(" ");
        let right = self.right.render();
        text.append(right.as_str());
        text.append(")");
        text
    }
}

impl<G: Expr> Expr for Grouping<G> {
    open spec fn rendering(&self) -> Seq<char> {
        grouping_text(self.expression.rendering())
    }

    fn render(&self) -> (text: String) {
        let mut text = String::from_str("(group ");
        let inner = self.expression.render();
        text.append(inner.as_str());
        text.append(")");
        text
    }
}

} // verus!
