//! The root of the syntax tree.
use crate::statements::{statements_of, Node, StatementView, Statements};
use vstd::prelude::*;

verus! {

/// A parsed program: its top-level statements, in source order.
pub struct Programm {
    pub statements: Vec<Statements>,
}

impl View for Programm {
    type V = Seq<StatementView>;

    open spec fn view(&self) -> Seq<StatementView> {
        statements_of(self.statements@)
    }
}

impl Node for Programm {
    open spec fn has_token(&self) -> bool {
        true
    }

    /// The literal of the first statement, or nothing for an empty program.
    open spec fn literal(&self) -> Seq<char> {
        if self@.len() > 0 {
            self@[0].token().literal
        } else {
            Seq::empty()
        }
    }

    fn token_literal(&self) -> (literal: String) {
        if !self.statements.is_empty() {
            self.statements[0].token_literal()
        } else {
            String::new()
        }
    }
}

} // verus!
