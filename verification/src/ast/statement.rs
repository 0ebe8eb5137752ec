//! Statements: `let`, `return`, and the bare expression.

use crate::ast::expression::{Expression, ExpressionView, Identifier};
use crate::ast::Node;
use crate::token::{Token, TokenView};
use vstd::prelude::*;
use vstd::string::*;

verus! {

/// Whether an optional expression, if present, is made of text.
pub open spec fn value_is_text(value: Option<ExpressionView>) -> bool {
    match value {
        Some(expression) => expression.is_text(),
        None => true,
    }
}

/// The text of an optional expression: empty when it is absent.
pub open spec fn value_text(value: Option<ExpressionView>) -> Seq<char> {
    match value {
        Some(expression) => expression.text(),
        None => Seq::empty(),
    }
}

/// The view of an optional expression.
pub open spec fn value_view(value: Option<Expression>) -> Option<ExpressionView> {
    match value {
        Some(expression) => Some(expression@),
        None => None,
    }
}

/// Renders an optional expression, the empty string when it is absent.
fn value_string(value: &Option<Expression>) -> (s: String)
    requires
        value_is_text(value_view(*value)),
    ensures
        s@ == value_text(value_view(*value)),
{
    match value {
        Some(expression) => expression.string(),
        None => String::new(),
    }
}

/// What a `let` statement is, mathematically.
pub struct LetStatementView {
    pub token: TokenView,
    pub name: TokenView,
    pub value: Option<ExpressionView>,
}

impl LetStatementView {
    pub open spec fn is_text(self) -> bool {
        self.token.is_text() && self.name.is_text() && value_is_text(self.value)
    }

    /// `<token> <name> = <value>;`
    pub open spec fn text(self) -> Seq<char> {
        self.token.text() + " "@ + self.name.text() + " = "@ + value_text(self.value) + ";"@
    }
}

/// What a `return` statement is, mathematically.
pub struct ReturnStatementView {
    pub token: TokenView,
    pub return_value: Option<ExpressionView>,
}

impl ReturnStatementView {
    pub open spec fn is_text(self) -> bool {
        self.token.is_text() && value_is_text(self.return_value)
    }

    /// `<token> <value>`
    pub open spec fn text(self) -> Seq<char> {
        self.token.text() + " "@ + value_text(self.return_value)
    }
}

/// What an expression statement is, mathematically.
pub struct ExpresstionStatementView {
    pub token: TokenView,
    pub exresstion: Option<ExpressionView>,
}

impl ExpresstionStatementView {
    pub open spec fn is_text(self) -> bool {
        value_is_text(self.exresstion)
    }

    /// `<expression>`
    pub open spec fn text(self) -> Seq<char> {
        value_text(self.exresstion)
    }
}

/// What a statement is, mathematically.
pub enum StatementView {
    LetStatement(LetStatementView),
    ReturnStatement(ReturnStatementView),
    ExpresstionStatement(ExpresstionStatementView),
}

impl StatementView {
    /// The token that introduces the statement.
    pub open spec fn token(self) -> TokenView {
        match self {
            StatementView::LetStatement(s) => s.token,
            StatementView::ReturnStatement(s) => s.token,
            StatementView::ExpresstionStatement(s) => s.token,
        }
    }

    pub open spec fn has_token_text(self) -> bool {
        self.token().is_text()
    }

    pub open spec fn is_text(self) -> bool {
        match self {
            StatementView::LetStatement(s) => s.is_text(),
            StatementView::ReturnStatement(s) => s.is_text(),
            StatementView::ExpresstionStatement(s) => s.is_text(),
        }
    }

    pub open spec fn text(self) -> Seq<char> {
        match self {
            StatementView::LetStatement(s) => s.text(),
            StatementView::ReturnStatement(s) => s.text(),
            StatementView::ExpresstionStatement(s) => s.text(),
        }
    }
}

/// A statement.
#[derive(Debug)]
pub enum Statement {
    LetStatement(LetStatement),
    ReturnStatement(ReturnStatement),
    ExpresstionStatement(ExpresstionStatement),
}

impl View for Statement {
    type V = StatementView;

    open spec fn view(&self) -> StatementView {
        match self {
            Statement::LetStatement(s) => StatementView::LetStatement(s@),
            Statement::ReturnStatement(s) => StatementView::ReturnStatement(s@),
            Statement::ExpresstionStatement(s) => StatementView::ExpresstionStatement(s@),
        }
    }
}

impl Node for Statement {
    open spec fn has_token_text(&self) -> bool {
        self@.has_token_text()
    }

    open spec fn token_text(&self) -> Seq<char> {
        self@.token().text()
    }

    open spec fn has_text(&self) -> bool {
        self@.is_text()
    }

    open spec fn text(&self) -> Seq<char> {
        self@.text()
    }

    fn token_literal(&self) -> (s: &str) {
        match self {
            Statement::LetStatement(let_statement) => let_statement.token_literal(),
            Statement::ReturnStatement(return_statement) => return_statement.token_literal(),
            Statement::ExpresstionStatement(statement) => statement.token_literal(),
        }
    }

    fn string(&self) -> (s: String) {
        match self {
            Statement::LetStatement(let_statement) => let_statement.string(),
            Statement::ReturnStatement(return_statement) => return_statement.string(),
            Statement::ExpresstionStatement(statement) => statement.string(),
        }
    }
}

/// `let <name> = <value>;`
#[derive(Debug)]
pub struct LetStatement {
    /// The `let` token.
    pub token: Token,
    pub name: Identifier,
    pub value: Option<Expression>,
}

impl View for LetStatement {
    type V = LetStatementView;

    open spec fn view(&self) -> LetStatementView {
        LetStatementView { token: self.token@, name: self.name@, value: value_view(self.value) }
    }
}

impl Node for LetStatement {
    open spec fn has_token_text(&self) -> bool {
        self@.token.is_text()
    }

    open spec fn token_text(&self) -> Seq<char> {
        self@.token.text()
    }

    open spec fn has_text(&self) -> bool {
        self@.is_text()
    }

    open spec fn text(&self) -> Seq<char> {
        self@.text()
    }

    fn token_literal(&self) -> (s: &str) {
        self.token.text()
    }

    fn string(&self) -> (s: String) {
        let mut out = String::from_str(self.token_literal());
        out.append(" ");
        out.append(self.name.string().as_str());
        out.append(" = ");
        out.append(value_string(&self.value).as_str());
        out.append(";");
        out
    }
}

/// `return <value>;`
#[derive(Debug)]
pub struct ReturnStatement {
    /// The `return` token.
    pub token: Token,
    pub return_value: Option<Expression>,
}

impl View for ReturnStatement {
    type V = ReturnStatementView;

    open spec fn view(&self) -> ReturnStatementView {
        ReturnStatementView { token: self.token@, return_value: value_view(self.return_value) }
    }
}

impl Node for ReturnStatement {
    open spec fn has_token_text(&self) -> bool {
        self@.token.is_text()
    }

    open spec fn token_text(&self) -> Seq<char> {
        self@.token.text()
    }

    open spec fn has_text(&self) -> bool {
        self@.is_text()
    }

    open spec fn text(&self) -> Seq<char> {
        self@.text()
    }

    fn token_literal(&self) -> (s: &str) {
        self.token.text()
    }

    fn string(&self) -> (s: String) {
        let mut out = String::from_str(self.token_literal());
        out.append(" ");
        out.append(value_string(&self.return_value).as_str());
        out
    }
}

/// A statement that is a single expression.
#[derive(Debug)]
pub struct ExpresstionStatement {
    /// The first token of the expression.
    pub token: Token,
    pub exresstion: Option<Expression>,
}

impl View for ExpresstionStatement {
    type V = ExpresstionStatementView;

    open spec fn view(&self) -> ExpresstionStatementView {
        ExpresstionStatementView { token: self.token@, exresstion: value_view(self.exresstion) }
    }
}

impl Node for ExpresstionStatement {
    open spec fn has_token_text(&self) -> bool {
        self@.token.is_text()
    }

    open spec fn token_text(&self) -> Seq<char> {
        self@.token.text()
    }

    open spec fn has_text(&self) -> bool {
        self@.is_text()
    }

    open spec fn text(&self) -> Seq<char> {
        self@.text()
    }

    fn token_literal(&self) -> (s: &str) {
        self.token.text()
    }

    fn string(&self) -> (s: String) {
        value_string(&self.exresstion)
    }
}

} // verus!
