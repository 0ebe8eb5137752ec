//! The syntax tree: a program is an ordered list of statements, each of which
//! owns its tokens and expressions. Every node can name the literal of its
//! introducing token and reconstruct its source text.

pub mod expression;
pub mod statement;

use crate::ast::statement::{Statement, StatementView};
use vstd::prelude::*;
use vstd::string::*;

verus! {

/// What every node of the tree offers.
///
/// Both methods turn token literals into text, so each comes with a
/// condition that the literals it reads are well-formed UTF-8. Literals that
/// the lexer produced always are.
pub trait Node {
    /// Whether the literal of the node's introducing token is text.
    spec fn has_token_text(&self) -> bool;

    /// The literal of the node's introducing token, as text.
    spec fn token_text(&self) -> Seq<char>;

    /// Whether every literal in the node is text.
    spec fn has_text(&self) -> bool;

    /// The source text that the node stands for.
    spec fn text(&self) -> Seq<char>;

    /// The literal of the token that introduces the node.
    fn token_literal(&self) -> (s: &str)
        requires
            self.has_token_text(),
        ensures
            s@ == self.token_text(),
    ;

    /// The node rendered back as source text.
    fn string(&self) -> (s: String)
        requires
            self.has_text(),
        ensures
            s@ == self.text(),
    ;
}

/// The texts of a list of statements, one after the other with nothing in
/// between.
pub open spec fn program_text(statements: Seq<StatementView>) -> Seq<char>
    decreases statements.len(),
{
    if statements.len() == 0 {
        Seq::empty()
    } else {
        program_text(statements.drop_last()) + statements.last().text()
    }
}

/// The root of the tree: the statements of a program in source order.
#[derive(Debug)]
pub struct Program {
    pub statements: Vec<Statement>,
}

impl View for Program {
    type V = Seq<StatementView>;

    open spec fn view(&self) -> Seq<StatementView> {
        Seq::new(self.statements@.len(), |i: int| self.statements@[i]@)
    }
}

impl Node for Program {
    open spec fn has_token_text(&self) -> bool {
        self@.len() > 0 ==> self@[0].has_token_text()
    }

    open spec fn token_text(&self) -> Seq<char> {
        if self@.len() > 0 {
            self@[0].token().text()
        } else {
            Seq::empty()
        }
    }

    open spec fn has_text(&self) -> bool {
        forall|i: int| 0 <= i < self@.len() ==> (#[trigger] self@[i]).is_text()
    }

    open spec fn text(&self) -> Seq<char> {
        program_text(self@)
    }

    /// The token literal of the first statement, or the empty text for an
    /// empty program.
    fn token_literal(&self) -> (s: &str) {
        if self.statements.len() > 0 {
            self.statements[0].token_literal()
        } else {
            proof {
                reveal_strlit("");
            }
            ""
        }
    }

    /// The statements' texts, concatenated in order.
    fn string(&self) -> (s: String) {
        let mut out = String::new();
        let mut i: usize = 0;
        while i < self.statements.len()
            invariant
                i <= self.statements.len(),
                self.has_text(),
                out@ == program_text(self@.take(i as int)),
            decreases self.statements.len() - i,
        {
            assert(self@[i as int] == self.statements@[i as int]@);
            let piece = self.statements[i].string();
            out.append(piece.as_str());
            proof {
                let next = self@.take(i + 1);
                assert(next.drop_last() =~= self@.take(i as int));
            }
            i += 1;
        }
        assert(self@.take(i as int) =~= self@);
        out
    }
}

} // verus!
