//! The parser: a recursive-descent statement parser over a two-token
//! lookahead window.
//!
//! The grammar and the error-recovery protocol are stated once, as spec
//! functions on [`ParserView`], the mathematical state of a parser. Each
//! method of [`Parser`] is proved to make exactly the transition that the
//! spec function of the same purpose describes.

use crate::ast::expression::Identifier;
use crate::ast::statement::{
    LetStatement, LetStatementView, ReturnStatement, ReturnStatementView, Statement,
    StatementView,
};
use crate::ast::{Node, Program};
use crate::lexer::{lemma_lex_consumes, lemma_lex_literal_is_text, lex, Lexer};
use crate::token::{Token, TokenType, TokenView};
use vstd::prelude::*;

verus! {

/// A structured parse error.
#[derive(Debug, PartialEq, Eq, Clone, Copy, Structural)]
pub enum ParseError {
    /// The lookahead token was required to be `want` and was `got`.
    UnexpectedPeekToken { want: TokenType, got: TokenType },
}

/// What a slot of the lookahead window counts for in [`ParserView::measure`]:
/// nothing once it holds `Eof`, one otherwise.
pub open spec fn weight(slot: Option<TokenView>) -> nat {
    match slot {
        Some(token) => if token.typ == TokenType::Eof {
            0
        } else {
            1
        },
        None => 1,
    }
}

/// Whether a slot of the window, if filled, holds a token whose literal is
/// text.
pub open spec fn slot_is_text(slot: Option<TokenView>) -> bool {
    match slot {
        Some(token) => token.is_text(),
        None => true,
    }
}

/// The state of a parser: the input that the lexer has not consumed yet, the
/// two-token window, and the errors recorded so far.
pub struct ParserView {
    pub input: Seq<u8>,
    pub cur: Option<TokenView>,
    pub peek: Option<TokenView>,
    pub errors: Seq<ParseError>,
}

impl ParserView {
    /// The state of a fresh parser over `input`: an empty window advanced
    /// twice, so that both slots are filled.
    pub open spec fn start(input: Seq<u8>) -> ParserView {
        ParserView { input, cur: None, peek: None, errors: Seq::empty() }.advance().advance()
    }

    /// Whether the literals of the tokens in the window are text. This holds
    /// of every parser that took its tokens from a lexer.
    pub open spec fn window_is_text(self) -> bool {
        slot_is_text(self.cur) && slot_is_text(self.peek)
    }

    /// Whether the current token has category `typ`.
    pub open spec fn cur_is(self, typ: TokenType) -> bool {
        self.cur matches Some(token) && token.typ == typ
    }

    /// Whether the lookahead token has category `typ`.
    pub open spec fn peek_is(self, typ: TokenType) -> bool {
        self.peek matches Some(token) && token.typ == typ
    }

    /// Shifts the lookahead into the current slot and lexes a new lookahead.
    pub open spec fn advance(self) -> ParserView {
        ParserView {
            input: lex(self.input).rest,
            cur: self.peek,
            peek: Some(lex(self.input).token),
            errors: self.errors,
        }
    }

    /// Moves the current token out of the window, leaving the slot empty.
    pub open spec fn take_cur(self) -> ParserView {
        ParserView { input: self.input, cur: None, peek: self.peek, errors: self.errors }
    }

    /// Records that the lookahead was required to be `want`.
    pub open spec fn report(self, want: TokenType) -> ParserView
        recommends
            self.peek is Some,
    {
        ParserView {
            input: self.input,
            cur: self.cur,
            peek: self.peek,
            errors: self.errors.push(
                ParseError::UnexpectedPeekToken { want, got: self.peek->0.typ },
            ),
        }
    }

    /// Requires the lookahead to be `want`: advances on a match; otherwise
    /// records an error and leaves the window where it is.
    pub open spec fn expect(self, want: TokenType) -> (ParserView, bool)
        recommends
            self.peek is Some,
    {
        if self.peek_is(want) {
            (self.advance(), true)
        } else {
            (self.report(want), false)
        }
    }

    /// A bound on the tokens still to come: advancing never raises it, and
    /// lowers it whenever the current token is not `Eof`.
    pub open spec fn measure(self) -> nat {
        self.input.len() + weight(self.peek) + weight(self.cur)
    }

    /// Resynchronizes at the end of a statement: advances until the current
    /// token is `;`. A statement that the input ends before terminating
    /// stops at `Eof`.
    pub open spec fn skip_statement(self) -> ParserView
        decreases self.measure(),
    {
        if self.cur_is(TokenType::Semicolon) || self.cur_is(TokenType::Eof) {
            self
        } else {
            proof {
                lemma_advance_measure(self);
            }
            self.advance().skip_statement()
        }
    }

    /// `let <Ident> = ... ;` with the current token as the `let`. A missing
    /// name or `=` records an error and yields no statement. The value is
    /// skipped, not parsed.
    pub open spec fn let_statement(self) -> (ParserView, Option<StatementView>)
        recommends
            self.cur is Some,
            self.peek is Some,
    {
        let (named, has_name) = self.take_cur().expect(TokenType::Ident);
        if !has_name {
            (named, None)
        } else {
            let (assigned, has_assign) = named.take_cur().expect(TokenType::Assign);
            if !has_assign {
                (assigned, None)
            } else {
                (
                    assigned.skip_statement(),
                    Some(
                        StatementView::LetStatement(
                            LetStatementView { token: self.cur->0, name: named.cur->0, value: None },
                        ),
                    ),
                )
            }
        }
    }

    /// `return ... ;` with the current token as the `return`. The value is
    /// skipped, not parsed.
    pub open spec fn return_statement(self) -> (ParserView, Option<StatementView>)
        recommends
            self.cur is Some,
    {
        (
            self.take_cur().advance().skip_statement(),
            Some(
                StatementView::ReturnStatement(
                    ReturnStatementView { token: self.cur->0, return_value: None },
                ),
            ),
        )
    }

    /// One statement, chosen by the current token: `let` and `return` start
    /// their statements, any other token starts none and is left in place.
    pub open spec fn statement(self) -> (ParserView, Option<StatementView>) {
        if self.cur_is(TokenType::Let) {
            self.let_statement()
        } else if self.cur_is(TokenType::Retrun) {
            self.return_statement()
        } else {
            (self, None)
        }
    }

    /// The whole pass: until the current token is `Eof`, parse one statement,
    /// keep it if there is one, and advance.
    pub open spec fn program(self) -> (ParserView, Seq<StatementView>)
        decreases self.measure(),
    {
        if self.cur_is(TokenType::Eof) {
            (self, Seq::empty())
        } else {
            proof {
                lemma_statement_progress(self);
            }
            let (after, found) = self.statement();
            let (end, rest) = after.advance().program();
            match found {
                Some(statement) => (end, seq![statement] + rest),
                None => (end, rest),
            }
        }
    }
}

/// Advancing never raises the measure, and lowers it unless the current
/// token is `Eof`.
pub proof fn lemma_advance_measure(v: ParserView)
    ensures
        v.advance().measure() <= v.measure(),
        !v.cur_is(TokenType::Eof) ==> v.advance().measure() < v.measure(),
{
    lemma_lex_consumes(v.input);
}

/// Resynchronizing never raises the measure, touches neither the errors nor
/// a filled lookahead, keeps the window's literals text, and ends on `;` or
/// on `Eof`.
pub proof fn lemma_skip_statement(v: ParserView)
    ensures
        v.skip_statement().measure() <= v.measure(),
        v.skip_statement().errors == v.errors,
        v.peek is Some ==> v.skip_statement().peek is Some,
        v.window_is_text() ==> v.skip_statement().window_is_text(),
        v.skip_statement().cur_is(TokenType::Semicolon) || v.skip_statement().cur_is(
            TokenType::Eof,
        ),
    decreases v.measure(),
{
    if !(v.cur_is(TokenType::Semicolon) || v.cur_is(TokenType::Eof)) {
        lemma_advance_measure(v);
        lemma_lex_literal_is_text(v.input);
        lemma_skip_statement(v.advance());
    }
}

/// One round of the pass makes progress: parsing a statement and advancing
/// lowers the measure whenever the round starts before `Eof`.
pub proof fn lemma_statement_progress(v: ParserView)
    requires
        !v.cur_is(TokenType::Eof),
    ensures
        v.statement().0.advance().measure() < v.measure(),
{
    if v.cur_is(TokenType::Let) {
        let taken = v.take_cur();
        lemma_advance_measure(taken);
        let (named, has_name) = taken.expect(TokenType::Ident);
        if has_name {
            let (assigned, has_assign) = named.take_cur().expect(TokenType::Assign);
            lemma_advance_measure(named.take_cur());
            if has_assign {
                lemma_skip_statement(assigned);
                lemma_advance_measure(assigned.skip_statement());
            }
        }
    } else if v.cur_is(TokenType::Retrun) {
        let taken = v.take_cur();
        lemma_advance_measure(taken);
        lemma_skip_statement(taken.advance());
        lemma_advance_measure(taken.advance().skip_statement());
    } else {
        lemma_advance_measure(v);
    }
}

/// Parsing one statement keeps the lookahead filled and only ever adds to
/// the errors: what was recorded before is still there, in order.
pub proof fn lemma_statement_keeps(v: ParserView)
    requires
        v.peek is Some,
    ensures
        v.statement().0.peek is Some,
        v.errors.is_prefix_of(v.statement().0.errors),
{
    if v.cur_is(TokenType::Let) {
        let (named, has_name) = v.take_cur().expect(TokenType::Ident);
        if has_name {
            let (assigned, has_assign) = named.take_cur().expect(TokenType::Assign);
            if has_assign {
                lemma_skip_statement(assigned);
            }
        }
    } else if v.cur_is(TokenType::Retrun) {
        lemma_skip_statement(v.take_cur().advance());
    }
}

/// The pass is error-tolerant and complete: whatever the input, it ends with
/// `Eof` as the current token, and every error recorded before or during the
/// pass is kept, in order.
pub proof fn lemma_program_reaches_eof(v: ParserView)
    requires
        v.peek is Some,
    ensures
        v.program().0.cur_is(TokenType::Eof),
        v.program().0.peek is Some,
        v.errors.is_prefix_of(v.program().0.errors),
    decreases v.measure(),
{
    if !v.cur_is(TokenType::Eof) {
        lemma_statement_progress(v);
        lemma_statement_keeps(v);
        lemma_program_reaches_eof(v.statement().0.advance());
    }
}

/// A fresh parser holds two tokens from the lexer, whose literals are text.
pub proof fn lemma_start_is_text(input: Seq<u8>)
    ensures
        ParserView::start(input).window_is_text(),
        ParserView::start(input).cur is Some,
        ParserView::start(input).peek is Some,
{
    lemma_lex_literal_is_text(input);
    lemma_lex_literal_is_text(lex(input).rest);
}

/// A statement built from lexed tokens can be rendered: if the window's
/// literals are text, so are those of the statement found and of the window
/// after it.
pub proof fn lemma_statement_is_text(v: ParserView)
    requires
        v.window_is_text(),
    ensures
        v.statement().0.window_is_text(),
        v.statement().1 matches Some(statement) ==> statement.is_text()
            && statement.has_token_text(),
{
    lemma_lex_literal_is_text(v.input);
    if v.cur_is(TokenType::Let) {
        let (named, has_name) = v.take_cur().expect(TokenType::Ident);
        lemma_lex_literal_is_text(named.input);
        if has_name {
            let (assigned, has_assign) = named.take_cur().expect(TokenType::Assign);
            if has_assign {
                lemma_skip_statement(assigned);
            }
        }
    } else if v.cur_is(TokenType::Retrun) {
        lemma_skip_statement(v.take_cur().advance());
    }
}

/// A program built from lexed tokens can be rendered: if the window's
/// literals are text, so are those of every statement of the program.
pub proof fn lemma_program_is_text(v: ParserView)
    requires
        v.window_is_text(),
    ensures
        v.program().0.window_is_text(),
        forall|i: int|
            0 <= i < v.program().1.len() ==> (#[trigger] v.program().1[i]).is_text()
                && v.program().1[i].has_token_text(),
    decreases v.measure(),
{
    if !v.cur_is(TokenType::Eof) {
        lemma_statement_progress(v);
        lemma_statement_is_text(v);
        let after = v.statement().0;
        lemma_lex_literal_is_text(after.input);
        lemma_program_is_text(after.advance());
    }
}

/// A `let` that is not followed by a name, or whose name is not followed by
/// `=`, yields no statement and records exactly one error, naming the
/// category that was wanted and the one that was found.
pub proof fn lemma_malformed_let_reports(v: ParserView)
    requires
        v.cur is Some,
        v.peek is Some,
    ensures
        !v.peek_is(TokenType::Ident) ==> v.let_statement() == (
            v.take_cur().report(TokenType::Ident),
            None::<StatementView>,
        ),
        v.peek_is(TokenType::Ident) && !v.take_cur().advance().peek_is(TokenType::Assign)
            ==> v.let_statement() == (
            v.take_cur().advance().take_cur().report(TokenType::Assign),
            None::<StatementView>,
        ),
        v.let_statement().1 is None ==> v.let_statement().0.errors.len() == v.errors.len() + 1,
        v.let_statement().1 is Some ==> v.let_statement().0.errors == v.errors,
{
    let (named, has_name) = v.take_cur().expect(TokenType::Ident);
    if has_name {
        let (assigned, has_assign) = named.take_cur().expect(TokenType::Assign);
        if has_assign {
            lemma_skip_statement(assigned);
        }
    }
}

/// A pass that starts on a malformed `let` still runs to `Eof`, and ends
/// with at least one more error than it started with.
pub proof fn lemma_malformed_let_is_survived(v: ParserView)
    requires
        v.cur_is(TokenType::Let),
        v.peek is Some,
        !v.peek_is(TokenType::Ident) || lex(v.input).token.typ != TokenType::Assign,
    ensures
        v.program().0.cur_is(TokenType::Eof),
        v.program().0.errors.len() > v.errors.len(),
{
    lemma_program_reaches_eof(v.statement().0.advance());
}

/// A well-formed `let`: when the `let` is followed by a name and the name by
/// `=`, the statement is recognized with that name, no error is recorded,
/// and the parser rests on the `;` that ends the statement, or on `Eof` if
/// the input ends first.
pub proof fn lemma_well_formed_let(v: ParserView)
    requires
        v.cur is Some,
        v.peek_is(TokenType::Ident),
        lex(v.input).token.typ == TokenType::Assign,
    ensures
        v.let_statement().1 == Some(
            StatementView::LetStatement(
                LetStatementView { token: v.cur->0, name: v.peek->0, value: None },
            ),
        ),
        v.let_statement().0.errors == v.errors,
        v.let_statement().0.cur_is(TokenType::Semicolon) || v.let_statement().0.cur_is(
            TokenType::Eof,
        ),
{
    let named = v.take_cur().advance();
    let assigned = named.take_cur().advance();
    lemma_skip_statement(assigned);
}

/// A `return` is always recognized and never records an error; the parser
/// rests on the `;` that ends the statement, or on `Eof` if the input ends
/// first.
pub proof fn lemma_return_recognized(v: ParserView)
    requires
        v.cur is Some,
    ensures
        v.return_statement().1 == Some(
            StatementView::ReturnStatement(
                ReturnStatementView { token: v.cur->0, return_value: None },
            ),
        ),
        v.return_statement().0.errors == v.errors,
        v.return_statement().0.cur_is(TokenType::Semicolon) || v.return_statement().0.cur_is(
            TokenType::Eof,
        ),
{
    lemma_skip_statement(v.take_cur().advance());
}

/// The view of an optional token.
pub open spec fn slot_view(slot: Option<Token>) -> Option<TokenView> {
    match slot {
        Some(token) => Some(token@),
        None => None,
    }
}

/// The view of an optional statement.
pub open spec fn found_view(found: Option<Statement>) -> Option<StatementView> {
    match found {
        Some(statement) => Some(statement@),
        None => None,
    }
}

/// A parser over a lexer.
pub struct Parser {
    l: Lexer,
    cur_token: Option<Token>,
    peek_token: Option<Token>,
    errors: Vec<ParseError>,
}

impl View for Parser {
    type V = ParserView;

    closed spec fn view(&self) -> ParserView {
        ParserView {
            input: self.l@,
            cur: slot_view(self.cur_token),
            peek: slot_view(self.peek_token),
            errors: self.errors@,
        }
    }
}

impl Parser {
    /// A parser at the start of the lexer's input, with both slots of the
    /// window filled.
    pub fn new(l: Lexer) -> (p: Self)
        ensures
            p@ == ParserView::start(l@),
            p@.cur is Some,
            p@.peek is Some,
            p@.window_is_text(),
    {
        proof {
            lemma_start_is_text(l@);
        }
        let mut p = Self { l, cur_token: None, peek_token: None, errors: Vec::new() };
        p.next_token();
        p.next_token();
        p
    }

    /// Hands over the errors recorded so far and clears the list.
    pub fn errors(&mut self) -> (errors: Vec<ParseError>)
        ensures
            errors@ == old(self)@.errors,
            final(self)@ == (ParserView {
                input: old(self)@.input,
                cur: old(self)@.cur,
                peek: old(self)@.peek,
                errors: Seq::empty(),
            }),
    {
        let mut errors = Vec::new();
        core::mem::swap(&mut self.errors, &mut errors);
        errors
    }

    /// Shifts the lookahead into the current slot and pulls a new lookahead
    /// from the lexer.
    pub fn next_token(&mut self)
        ensures
            final(self)@ == old(self)@.advance(),
    {
        let next = self.l.next_token();
        self.cur_token = self.peek_token.take();
        self.peek_token = Some(next);
    }

    /// Whether the current token has category `target`.
    pub fn cur_token_is(&self, target: &TokenType) -> (r: bool)
        ensures
            r == self@.cur_is(*target),
    {
        match &self.cur_token {
            Some(token) => token.typ == *target,
            None => false,
        }
    }

    /// Whether the lookahead token has category `target`.
    pub fn peek_token_is(&self, target: &TokenType) -> (r: bool)
        ensures
            r == self@.peek_is(*target),
    {
        match &self.peek_token {
            Some(token) => token.typ == *target,
            None => false,
        }
    }

    /// Records that the lookahead was required to be `token`.
    pub fn peek_error(&mut self, token: &TokenType)
        requires
            old(self)@.peek is Some,
        ensures
            final(self)@ == old(self)@.report(*token),
    {
        let got = match &self.peek_token {
            Some(peek) => peek.typ,
            None => TokenType::Illegal,
        };
        self.errors.push(ParseError::UnexpectedPeekToken { want: *token, got });
    }

    /// Requires the lookahead to be `target`. On a match the window advances
    /// and the result is `true`. Otherwise an error is recorded, the window
    /// stays where it is, and the result is `false`.
    pub fn expect_peek(&mut self, target: &TokenType) -> (found: bool)
        requires
            old(self)@.peek is Some,
        ensures
            (final(self)@, found) == old(self)@.expect(*target),
    {
        if self.peek_token_is(target) {
            self.next_token();
            true
        } else {
            self.peek_error(target);
            false
        }
    }

    /// Advances until the current token ends a statement, or the input.
    fn skip_statement(&mut self)
        ensures
            final(self)@ == old(self)@.skip_statement(),
            old(self)@.peek is Some ==> final(self)@.peek is Some,
    {
        proof {
            lemma_skip_statement(self@);
        }
        while !self.cur_token_is(&TokenType::Semicolon) && !self.cur_token_is(&TokenType::Eof)
            invariant
                self@.skip_statement() == old(self)@.skip_statement(),
            decreases self@.measure(),
        {
            proof {
                lemma_advance_measure(self@);
            }
            self.next_token();
        }
    }

    /// Parses a `let` statement whose `let` is the current token.
    pub fn parse_let_statemet(&mut self) -> (found: Option<Statement>)
        requires
            old(self)@.cur is Some,
            old(self)@.peek is Some,
        ensures
            (final(self)@, found_view(found)) == old(self)@.let_statement(),
            final(self)@.peek is Some,
    {
        let token = self.cur_token.take().unwrap();
        if !self.expect_peek(&TokenType::Ident) {
            return None;
        }
        let identifier_token = self.cur_token.take().unwrap();
        let name = Identifier::new(identifier_token);
        if !self.expect_peek(&TokenType::Assign) {
            return None;
        }
        self.skip_statement();
        Some(Statement::LetStatement(LetStatement { name, token, value: None }))
    }

    /// Parses a `return` statement whose `return` is the current token.
    pub fn parse_return_statemet(&mut self) -> (found: Option<Statement>)
        requires
            old(self)@.cur is Some,
        ensures
            (final(self)@, found_view(found)) == old(self)@.return_statement(),
            final(self)@.peek is Some,
    {
        let token = self.cur_token.take().unwrap();
        self.next_token();
        self.skip_statement();
        Some(Statement::ReturnStatement(ReturnStatement { token, return_value: None }))
    }

    /// Parses the statement that the current token starts, if it starts one.
    pub fn parse_statement(&mut self) -> (found: Option<Statement>)
        requires
            old(self)@.peek is Some,
        ensures
            (final(self)@, found_view(found)) == old(self)@.statement(),
            final(self)@.peek is Some,
    {
        if self.cur_token_is(&TokenType::Let) {
            self.parse_let_statemet()
        } else if self.cur_token_is(&TokenType::Retrun) {
            self.parse_return_statemet()
        } else {
            None
        }
    }

    /// Parses the rest of the input into a program. The pass never aborts:
    /// it ends with `Eof` as the current token, and what went wrong is in
    /// the error list.
    pub fn parse_program(&mut self) -> (program: Program)
        requires
            old(self)@.peek is Some,
        ensures
            (final(self)@, program@) == old(self)@.program(),
            final(self)@.cur_is(TokenType::Eof),
            final(self)@.peek is Some,
            old(self)@.errors.is_prefix_of(final(self)@.errors),
            old(self)@.window_is_text() ==> program.has_text() && program.has_token_text()
                && final(self)@.window_is_text(),
    {
        let mut p = Program { statements: Vec::new() };
        while !self.cur_token_is(&TokenType::Eof)
            invariant
                self@.peek is Some,
                old(self)@.program().0 == self@.program().0,
                old(self)@.program().1 == p@ + self@.program().1,
            decreases self@.measure(),
        {
            proof {
                lemma_statement_progress(self@);
            }
            let stmt = self.parse_statement();
            if let Some(stmt) = stmt {
                p.statements.push(stmt);
            }
            self.next_token();
        }
        proof {
            lemma_program_reaches_eof(old(self)@);
            if old(self)@.window_is_text() {
                lemma_program_is_text(old(self)@);
            }
        }
        p
    }
}

} // verus!
