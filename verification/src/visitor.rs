//! Visitors traverse an ast to build a single output.

use vstd::prelude::*;

use crate::ast::Ast;
use crate::ast::Bool;
use crate::ast::Identifier;
use crate::ast::Label;
use crate::span::Span;

verus! {

/// A tree-to-single-value aggregation with one mandatory case per node
/// kind: the `visit` entry point pattern-matches the node and dispatches
/// to the matching method, passing the node's constituent fields
/// unwrapped. Implementors recurse by calling `visit` on the subtrees they
/// receive.
pub trait Visitor: Sized {
    type Output;

    fn visit_empty(&mut self) -> Self::Output;

    fn visit_number(&mut self, number: Span) -> Self::Output;

    fn visit_string(&mut self, string: Span) -> Self::Output;

    fn visit_bool(&mut self, b: Bool) -> Self::Output;

    fn visit_identifier(&mut self, identifier: Identifier) -> Self::Output;

    fn visit_program(&mut self, ast: Box<Ast>) -> Self::Output;

    /// Labels are special: implementors of this trait handle them
    /// themselves in `visit_function`.
    fn visit_label(&mut self, label: Label) -> Self::Output;

    fn visit_function(&mut self, labels: Vec<Label>, program: Box<Ast>) -> Self::Output;

    fn visit_application(&mut self, identifier: Identifier, arguments: Vec<Ast>) -> Self::Output;

    fn visit_conditional(
        &mut self,
        condition: Box<Ast>,
        true_branch: Box<Ast>,
        else_branch: Option<Box<Ast>>,
    ) -> Self::Output;

    fn visit_declaration(
        &mut self,
        identifier: Identifier,
        body: Box<Ast>,
        rest: Option<Box<Ast>>,
    ) -> Self::Output;

    fn visit_plus(&mut self, lhs: Box<Ast>, rhs: Box<Ast>) -> Self::Output;

    fn visit_minus(&mut self, lhs: Box<Ast>, rhs: Box<Ast>) -> Self::Output;

    fn visit_mult(&mut self, lhs: Box<Ast>, rhs: Box<Ast>) -> Self::Output;

    fn visit_div(&mut self, lhs: Box<Ast>, rhs: Box<Ast>) -> Self::Output;

    fn visit_lte(&mut self, lhs: Box<Ast>, rhs: Box<Ast>) -> Self::Output;

    fn visit_gte(&mut self, lhs: Box<Ast>, rhs: Box<Ast>) -> Self::Output;

    fn visit_lt(&mut self, lhs: Box<Ast>, rhs: Box<Ast>) -> Self::Output;

    fn visit_gt(&mut self, lhs: Box<Ast>, rhs: Box<Ast>) -> Self::Output;

    /// Dispatches one node to the method of its kind.
    fn visit(&mut self, ast: Ast) -> Self::Output {
        match ast {
            Ast::Empty => self.visit_empty(),
            Ast::Number(n) => self.visit_number(n),
            Ast::Str(s) => self.visit_string(s),
            Ast::Bool(b) => self.visit_bool(b),
            Ast::Identifier(i) => self.visit_identifier(i),
            Ast::Program(p) => self.visit_program(p),
            Ast::Function { labels, body } => self.visit_function(labels, body),
            Ast::Application { identifier, arguments } => self.visit_application(
                identifier,
                arguments,
            ),
            Ast::Conditional { condition, true_branch, else_branch } => self.visit_conditional(
                condition,
                true_branch,
                else_branch,
            ),
            Ast::Declaration { identifier, body, rest } => self.visit_declaration(
                identifier,
                body,
                rest,
            ),
            Ast::Plus(lhs, rhs) => self.visit_plus(lhs, rhs),
            Ast::Minus(lhs, rhs) => self.visit_minus(lhs, rhs),
            Ast::Mult(lhs, rhs) => self.visit_mult(lhs, rhs),
            Ast::Div(lhs, rhs) => self.visit_div(lhs, rhs),
            Ast::Lte(lhs, rhs) => self.visit_lte(lhs, rhs),
            Ast::Gte(lhs, rhs) => self.visit_gte(lhs, rhs),
            Ast::Lt(lhs, rhs) => self.visit_lt(lhs, rhs),
            Ast::Gt(lhs, rhs) => self.visit_gt(lhs, rhs),
        }
    }
}

} // verus!
