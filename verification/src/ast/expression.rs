//! Expressions. The grammar has one kind so far, the identifier.

use crate::ast::Node;
use crate::token::{Token, TokenView};
use vstd::prelude::*;
use vstd::string::*;

verus! {

/// What an expression is, mathematically.
pub enum ExpressionView {
    Identifier(TokenView),
}

impl ExpressionView {
    /// The token that introduces the expression.
    pub open spec fn token(self) -> TokenView {
        match self {
            ExpressionView::Identifier(token) => token,
        }
    }

    /// Whether every literal in the expression is text.
    pub open spec fn is_text(self) -> bool {
        self.token().is_text()
    }

    /// The source text of the expression.
    pub open spec fn text(self) -> Seq<char> {
        self.token().text()
    }
}

/// An expression.
#[derive(Debug)]
pub enum Expression {
    Identifier(Identifier),
}

impl View for Expression {
    type V = ExpressionView;

    open spec fn view(&self) -> ExpressionView {
        match self {
            Expression::Identifier(identifier) => ExpressionView::Identifier(identifier@),
        }
    }
}

impl Node for Expression {
    open spec fn has_token_text(&self) -> bool {
        self@.is_text()
    }

    open spec fn token_text(&self) -> Seq<char> {
        self@.token().text()
    }

    open spec fn has_text(&self) -> bool {
        self@.is_text()
    }

    open spec fn text(&self) -> Seq<char> {
        self@.text()
    }

    fn token_literal(&self) -> (s: &str) {
        match self {
            Expression::Identifier(identifier) => identifier.token_literal(),
        }
    }

    fn string(&self) -> (s: String) {
        match self {
            Expression::Identifier(identifier) => identifier.string(),
        }
    }
}

/// A name. Its text is the literal of its token.
#[derive(Debug)]
pub struct Identifier {
    token: Token,
}

impl View for Identifier {
    type V = TokenView;

    closed spec fn view(&self) -> TokenView {
        self.token@
    }
}

impl Identifier {
    /// The identifier that `token` names.
    pub fn new(token: Token) -> (identifier: Self)
        ensures
            identifier@ == token@,
    {
        Self { token }
    }
}

impl Node for Identifier {
    open spec fn has_token_text(&self) -> bool {
        self@.is_text()
    }

    open spec fn token_text(&self) -> Seq<char> {
        self@.text()
    }

    open spec fn has_text(&self) -> bool {
        self@.is_text()
    }

    open spec fn text(&self) -> Seq<char> {
        self@.text()
    }

    fn token_literal(&self) -> (s: &str) {
        self.token.text()
    }

    fn string(&self) -> (s: String) {
        String::from_str(self.token.text())
    }
}

} // verus!
