//! Folders transform an ast into a new tree.
//!
//! A folder is described by one hook per node kind. The generic [`fold`]
//! dispatcher recurses into every child subtree, left to right, and hands
//! the folded children to the hook of the parent's kind, which rebuilds the
//! node. Every hook's meaning is fixed by a companion spec function; the
//! spec functions default to identity reconstruction, so an implementation
//! overrides only the node kinds whose semantics it wants to change, and a
//! folder that overrides nothing rebuilds the tree unchanged.

use vstd::prelude::*;

use crate::ast::Ast;
use crate::ast::AstView;
use crate::ast::Bool;
use crate::ast::IdentView;
use crate::ast::Identifier;
use crate::ast::Label;
use crate::ast::LabelView;
use crate::ast::ast_view;
use crate::ast::asts_view;
use crate::ast::labels_view;
use crate::ast::lemma_asts_view;
use crate::names::fresh_name;
use crate::names::next_counter;
use crate::span::Span;
use crate::span::SpanView;

verus! {

/// A structure-preserving tree transformation with overridable per-node-kind
/// behavior.
///
/// Each `visit_*` method receives the node's payload with every child
/// subtree already folded, and returns the rebuilt node; its result and its
/// effect on the pass state are pinned by the matching `*_spec` function.
/// The spec functions default to identity reconstruction.
pub trait Folder: Sized {
    /// Meaning of [`Folder::visit_empty`].
    open spec fn empty_spec(pre: Self) -> (Self, AstView) {
        (pre, AstView::Empty)
    }

    /// Meaning of [`Folder::visit_number`].
    open spec fn number_spec(pre: Self, number: SpanView) -> (Self, AstView) {
        (pre, AstView::Number(number))
    }

    /// Meaning of [`Folder::visit_string`].
    open spec fn string_spec(pre: Self, string: SpanView) -> (Self, AstView) {
        (pre, AstView::Str(string))
    }

    /// Meaning of [`Folder::visit_bool`].
    open spec fn bool_spec(pre: Self, b: Bool) -> (Self, AstView) {
        (pre, AstView::Bool(b))
    }

    /// Meaning of [`Folder::visit_identifier`].
    open spec fn identifier_spec(pre: Self, identifier: IdentView) -> (Self, AstView) {
        (pre, AstView::Identifier(identifier))
    }

    /// Meaning of [`Folder::visit_program`].
    open spec fn program_spec(pre: Self, ast: AstView) -> (Self, AstView) {
        (pre, AstView::Program(Box::new(ast)))
    }

    /// Meaning of [`Folder::visit_label`].
    open spec fn label_spec(pre: Self, label: LabelView) -> (Self, LabelView) {
        (pre, label)
    }

    /// Meaning of [`Folder::visit_function`].
    open spec fn function_spec(pre: Self, labels: Seq<LabelView>, body: AstView) -> (
        Self,
        AstView,
    ) {
        (pre, AstView::Function { labels, body: Box::new(body) })
    }

    /// Meaning of [`Folder::visit_application`].
    open spec fn application_spec(
        pre: Self,
        identifier: IdentView,
        arguments: Seq<AstView>,
    ) -> (Self, AstView) {
        (pre, AstView::Application { identifier, arguments })
    }

    /// Meaning of [`Folder::visit_conditional`].
    open spec fn conditional_spec(
        pre: Self,
        condition: AstView,
        true_branch: AstView,
        else_branch: Option<AstView>,
    ) -> (Self, AstView) {
        (
            pre,
            AstView::Conditional {
                condition: Box::new(condition),
                true_branch: Box::new(true_branch),
                else_branch: match else_branch {
                    Option::None => Option::None,
                    Option::Some(e) => Option::Some(Box::new(e)),
                },
            },
        )
    }

    /// Meaning of [`Folder::visit_declaration`].
    open spec fn declaration_spec(
        pre: Self,
        identifier: IdentView,
        body: AstView,
        rest: Option<AstView>,
    ) -> (Self, AstView) {
        (
            pre,
            AstView::Declaration {
                identifier,
                body: Box::new(body),
                rest: match rest {
                    Option::None => Option::None,
                    Option::Some(e) => Option::Some(Box::new(e)),
                },
            },
        )
    }

    /// Meaning of [`Folder::visit_plus`].
    open spec fn plus_spec(pre: Self, lhs: AstView, rhs: AstView) -> (Self, AstView) {
        (pre, AstView::Plus(Box::new(lhs), Box::new(rhs)))
    }

    /// Meaning of [`Folder::visit_minus`].
    open spec fn minus_spec(pre: Self, lhs: AstView, rhs: AstView) -> (Self, AstView) {
        (pre, AstView::Minus(Box::new(lhs), Box::new(rhs)))
    }

    /// Meaning of [`Folder::visit_mult`].
    open spec fn mult_spec(pre: Self, lhs: AstView, rhs: AstView) -> (Self, AstView) {
        (pre, AstView::Mult(Box::new(lhs), Box::new(rhs)))
    }

    /// Meaning of [`Folder::visit_div`].
    open spec fn div_spec(pre: Self, lhs: AstView, rhs: AstView) -> (Self, AstView) {
        (pre, AstView::Div(Box::new(lhs), Box::new(rhs)))
    }

    /// Meaning of [`Folder::visit_lte`].
    open spec fn lte_spec(pre: Self, lhs: AstView, rhs: AstView) -> (Self, AstView) {
        (pre, AstView::Lte(Box::new(lhs), Box::new(rhs)))
    }

    /// Meaning of [`Folder::visit_gte`].
    open spec fn gte_spec(pre: Self, lhs: AstView, rhs: AstView) -> (Self, AstView) {
        (pre, AstView::Gte(Box::new(lhs), Box::new(rhs)))
    }

    /// Meaning of [`Folder::visit_lt`].
    open spec fn lt_spec(pre: Self, lhs: AstView, rhs: AstView) -> (Self, AstView) {
        (pre, AstView::Lt(Box::new(lhs), Box::new(rhs)))
    }

    /// Meaning of [`Folder::visit_gt`].
    open spec fn gt_spec(pre: Self, lhs: AstView, rhs: AstView) -> (Self, AstView) {
        (pre, AstView::Gt(Box::new(lhs), Box::new(rhs)))
    }

    /// Rebuilds the empty node.
    fn visit_empty(&mut self) -> (r: Ast)
        ensures
            (*final(self), r@) == Self::empty_spec(*old(self)),
    ;

    /// Rebuilds a number literal from its span.
    fn visit_number(&mut self, number: Span) -> (r: Ast)
        ensures
            (*final(self), r@) == Self::number_spec(*old(self), number@),
    ;

    /// Rebuilds a string literal from its span.
    fn visit_string(&mut self, string: Span) -> (r: Ast)
        ensures
            (*final(self), r@) == Self::string_spec(*old(self), string@),
    ;

    /// Rebuilds a boolean literal.
    fn visit_bool(&mut self, b: Bool) -> (r: Ast)
        ensures
            (*final(self), r@) == Self::bool_spec(*old(self), b),
    ;

    /// Rebuilds an identifier node.
    fn visit_identifier(&mut self, identifier: Identifier) -> (r: Ast)
        ensures
            (*final(self), r@) == Self::identifier_spec(*old(self), identifier@),
    ;

    /// Rebuilds the program root around its folded child.
    fn visit_program(&mut self, ast: Ast) -> (r: Ast)
        ensures
            (*final(self), r@) == Self::program_spec(*old(self), ast@),
    ;

    /// Rebuilds one formal parameter.
    fn visit_label(&mut self, label: Label) -> (r: Label)
        ensures
            (*final(self), r@) == Self::label_spec(*old(self), label@),
    ;

    /// Rebuilds a function from its visited labels and folded body.
    fn visit_function(&mut self, labels: Vec<Label>, program: Ast) -> (r: Ast)
        ensures
            (*final(self), r@) == Self::function_spec(*old(self), labels_view(labels@), program@),
    ;

    /// Rebuilds an application from its callee and folded arguments.
    fn visit_application(&mut self, identifier: Identifier, arguments: Vec<Ast>) -> (r: Ast)
        ensures
            (*final(self), r@) == Self::application_spec(
                *old(self),
                identifier@,
                asts_view(arguments@),
            ),
    ;

    /// Rebuilds a conditional from its folded branches.
    fn visit_conditional(
        &mut self,
        condition: Ast,
        true_branch: Ast,
        else_branch: Option<Box<Ast>>,
    ) -> (r: Ast)
        ensures
            (*final(self), r@) == Self::conditional_spec(
                *old(self),
                condition@,
                true_branch@,
                match else_branch {
                    Option::None => Option::None,
                    Option::Some(e) => Option::Some(e@),
                },
            ),
    ;

    /// Rebuilds a declaration from its folded body and continuation.
    fn visit_declaration(
        &mut self,
        identifier: Identifier,
        body: Ast,
        rest: Option<Box<Ast>>,
    ) -> (r: Ast)
        ensures
            (*final(self), r@) == Self::declaration_spec(
                *old(self),
                identifier@,
                body@,
                match rest {
                    Option::None => Option::None,
                    Option::Some(e) => Option::Some(e@),
                },
            ),
    ;

    /// Rebuilds an addition from its folded operands.
    fn visit_plus(&mut self, lhs: Ast, rhs: Ast) -> (r: Ast)
        ensures
            (*final(self), r@) == Self::plus_spec(*old(self), lhs@, rhs@),
    ;

    /// Rebuilds a subtraction from its folded operands.
    fn visit_minus(&mut self, lhs: Ast, rhs: Ast) -> (r: Ast)
        ensures
            (*final(self), r@) == Self::minus_spec(*old(self), lhs@, rhs@),
    ;

    /// Rebuilds a multiplication from its folded operands.
    fn visit_mult(&mut self, lhs: Ast, rhs: Ast) -> (r: Ast)
        ensures
            (*final(self), r@) == Self::mult_spec(*old(self), lhs@, rhs@),
    ;

    /// Rebuilds a division from its folded operands.
    fn visit_div(&mut self, lhs: Ast, rhs: Ast) -> (r: Ast)
        ensures
            (*final(self), r@) == Self::div_spec(*old(self), lhs@, rhs@),
    ;

    /// Rebuilds a less-or-equal comparison from its folded operands.
    fn visit_lte(&mut self, lhs: Ast, rhs: Ast) -> (r: Ast)
        ensures
            (*final(self), r@) == Self::lte_spec(*old(self), lhs@, rhs@),
    ;

    /// Rebuilds a greater-or-equal comparison from its folded operands.
    fn visit_gte(&mut self, lhs: Ast, rhs: Ast) -> (r: Ast)
        ensures
            (*final(self), r@) == Self::gte_spec(*old(self), lhs@, rhs@),
    ;

    /// Rebuilds a less-than comparison from its folded operands.
    fn visit_lt(&mut self, lhs: Ast, rhs: Ast) -> (r: Ast)
        ensures
            (*final(self), r@) == Self::lt_spec(*old(self), lhs@, rhs@),
    ;

    /// Rebuilds a greater-than comparison from its folded operands.
    fn visit_gt(&mut self, lhs: Ast, rhs: Ast) -> (r: Ast)
        ensures
            (*final(self), r@) == Self::gt_spec(*old(self), lhs@, rhs@),
    ;
}

/// The tree a folder produces, together with its final state: children are
/// folded left to right, then the hook of the parent's kind rebuilds the
/// node.
pub open spec fn spec_fold<F: Folder>(pre: F, t: AstView) -> (F, AstView)
    decreases t,
{
    match t {
        AstView::Empty => F::empty_spec(pre),
        AstView::Number(s) => F::number_spec(pre, s),
        AstView::Str(s) => F::string_spec(pre, s),
        AstView::Bool(b) => F::bool_spec(pre, b),
        AstView::Identifier(i) => F::identifier_spec(pre, i),
        AstView::Program(p) => {
            let (f1, c) = spec_fold(pre, *p);
            F::program_spec(f1, c)
        },
        AstView::Function { labels, body } => {
            let (f1, ls) = spec_fold_labels(pre, labels);
            let (f2, b) = spec_fold(f1, *body);
            F::function_spec(f2, ls, b)
        },
        AstView::Application { identifier, arguments } => {
            let (f1, args) = spec_fold_args(pre, arguments);
            F::application_spec(f1, identifier, args)
        },
        AstView::Conditional { condition, true_branch, else_branch } => {
            let (f1, c) = spec_fold(pre, *condition);
            let (f2, tb) = spec_fold(f1, *true_branch);
            match else_branch {
                Option::None => F::conditional_spec(f2, c, tb, Option::None),
                Option::Some(e) => {
                    let (f3, eb) = spec_fold(f2, *e);
                    F::conditional_spec(f3, c, tb, Option::Some(eb))
                },
            }
        },
        AstView::Plus(l, r) => {
            let (f1, lf) = spec_fold(pre, *l);
            let (f2, rf) = spec_fold(f1, *r);
            F::plus_spec(f2, lf, rf)
        },
        AstView::Minus(l, r) => {
            let (f1, lf) = spec_fold(pre, *l);
            let (f2, rf) = spec_fold(f1, *r);
            F::minus_spec(f2, lf, rf)
        },
        AstView::Mult(l, r) => {
            let (f1, lf) = spec_fold(pre, *l);
            let (f2, rf) = spec_fold(f1, *r);
            F::mult_spec(f2, lf, rf)
        },
        AstView::Div(l, r) => {
            let (f1, lf) = spec_fold(pre, *l);
            let (f2, rf) = spec_fold(f1, *r);
            F::div_spec(f2, lf, rf)
        },
        AstView::Lte(l, r) => {
            let (f1, lf) = spec_fold(pre, *l);
            let (f2, rf) = spec_fold(f1, *r);
            F::lte_spec(f2, lf, rf)
        },
        AstView::Gte(l, r) => {
            let (f1, lf) = spec_fold(pre, *l);
            let (f2, rf) = spec_fold(f1, *r);
            F::gte_spec(f2, lf, rf)
        },
        AstView::Lt(l, r) => {
            let (f1, lf) = spec_fold(pre, *l);
            let (f2, rf) = spec_fold(f1, *r);
            F::lt_spec(f2, lf, rf)
        },
        AstView::Gt(l, r) => {
            let (f1, lf) = spec_fold(pre, *l);
            let (f2, rf) = spec_fold(f1, *r);
            F::gt_spec(f2, lf, rf)
        },
        AstView::Declaration { identifier, body, rest } => {
            let (f1, b) = spec_fold(pre, *body);
            match rest {
                Option::None => F::declaration_spec(f1, identifier, b, Option::None),
                Option::Some(e) => {
                    let (f2, rf) = spec_fold(f1, *e);
                    F::declaration_spec(f2, identifier, b, Option::Some(rf))
                },
            }
        },
    }
}

/// Folds a sequence of subtrees left to right, threading the pass state.
pub open spec fn spec_fold_args<F: Folder>(pre: F, s: Seq<AstView>) -> (F, Seq<AstView>)
    decreases s,
{
    if s.len() == 0 {
        (pre, Seq::empty())
    } else {
        let (f1, ts) = spec_fold_args(pre, s.drop_last());
        let (f2, t) = spec_fold(f1, s.last());
        (f2, ts.push(t))
    }
}

/// Visits a sequence of labels left to right, threading the pass state.
pub open spec fn spec_fold_labels<F: Folder>(pre: F, s: Seq<LabelView>) -> (F, Seq<LabelView>)
    decreases s,
{
    if s.len() == 0 {
        (pre, Seq::empty())
    } else {
        let (f1, ls) = spec_fold_labels(pre, s.drop_last());
        let (f2, l) = F::label_spec(f1, s.last());
        (f2, ls.push(l))
    }
}

/// The generic dispatch every folder shares: recursively folds every child
/// subtree through the folder's hooks and rebuilds an equivalent node from
/// the folded children, in left-to-right traversal order.
#[verifier::loop_isolation(false)]
pub fn fold<F: Folder>(f: &mut F, ast: &Ast) -> (r: Ast)
    ensures
        (*final(f), r@) == spec_fold(*old(f), ast@),
    decreases *ast,
{
    match ast {
        Ast::Empty => f.visit_empty(),
        Ast::Number(s) => f.visit_number(s.duplicate()),
        Ast::Str(s) => f.visit_string(s.duplicate()),
        Ast::Bool(b) => f.visit_bool(*b),
        Ast::Identifier(i) => f.visit_identifier(i.clone()),
        Ast::Program(p) => {
            let c = fold(f, p);
            f.visit_program(c)
        },
        Ast::Function { labels, body } => {
            let ghost f0 = *f;
            let mut ls: Vec<Label> = Vec::new();
            let mut k: usize = 0;
            while k < labels.len()
                invariant
                    k <= labels.len(),
                    (*f, labels_view(ls@)) == spec_fold_labels(
                        f0,
                        labels_view(labels@).subrange(0, k as int),
                    ),
                decreases labels.len() - k,
            {
                let ghost pre = labels_view(labels@).subrange(0, k as int);
                let l = f.visit_label(labels[k].clone());
                ls.push(l);
                k = k + 1;
                proof {
                    assert(labels_view(labels@).subrange(0, k as int) =~= pre.push(
                        labels_view(labels@)[k - 1],
                    ));
                    assert(labels_view(labels@).subrange(0, k as int).drop_last() =~= pre);
                    assert(labels_view(ls@) =~= spec_fold_labels(
                        f0,
                        labels_view(labels@).subrange(0, k as int),
                    ).1);
                }
            }
            proof {
                assert(labels_view(labels@).subrange(0, labels@.len() as int) =~= labels_view(
                    labels@,
                ));
            }
            let b = fold(f, body);
            f.visit_function(ls, b)
        },
        Ast::Application { identifier, arguments } => {
            let ghost f0 = *f;
            proof {
                lemma_asts_view(arguments@);
                assert(asts_view(arguments@).subrange(0, 0) =~= Seq::<AstView>::empty());
            }
            let mut args: Vec<Ast> = Vec::new();
            let mut k: usize = 0;
            while k < arguments.len()
                invariant
                    k <= arguments.len(),
                    args@.len() == k as int,
                    (*f, asts_view(args@)) == spec_fold_args(
                        f0,
                        asts_view(arguments@).subrange(0, k as int),
                    ),
                decreases arguments.len() - k,
            {
                let ghost pre = asts_view(arguments@).subrange(0, k as int);
                let ghost folded = asts_view(args@);
                let ghost args0 = args@;
                let ghost f1 = *f;
                let t = fold(f, &arguments[k]);
                args.push(t);
                k = k + 1;
                proof {
                    let cur = asts_view(arguments@).subrange(0, k as int);
                    assert(cur.drop_last() =~= pre);
                    assert(cur.last() == ast_view(arguments@[k - 1]));
                    assert(spec_fold(f1, cur.last()) == (*f, t@));
                    assert(spec_fold_args(f0, cur) == (*f, folded.push(t@)));
                    assert(args@.drop_last() =~= args0);
                    assert(args@.last() == t);
                    assert(asts_view(args@) == asts_view(args0).push(t@));
                }
            }
            proof {
                assert(asts_view(arguments@).subrange(0, arguments@.len() as int) =~= asts_view(
                    arguments@,
                ));
            }
            f.visit_application(identifier.clone(), args)
        },
        Ast::Conditional { condition, true_branch, else_branch } => {
            let c = fold(f, condition);
            let tb = fold(f, true_branch);
            let eb: Option<Box<Ast>> = match else_branch {
                Option::None => Option::None,
                Option::Some(e) => Option::Some(Box::new(fold(f, e))),
            };
            f.visit_conditional(c, tb, eb)
        },
        Ast::Plus(l, r) => {
            let lf = fold(f, l);
            let rf = fold(f, r);
            f.visit_plus(lf, rf)
        },
        Ast::Minus(l, r) => {
            let lf = fold(f, l);
            let rf = fold(f, r);
            f.visit_minus(lf, rf)
        },
        Ast::Mult(l, r) => {
            let lf = fold(f, l);
            let rf = fold(f, r);
            f.visit_mult(lf, rf)
        },
        Ast::Div(l, r) => {
            let lf = fold(f, l);
            let rf = fold(f, r);
            f.visit_div(lf, rf)
        },
        Ast::Lte(l, r) => {
            let lf = fold(f, l);
            let rf = fold(f, r);
            f.visit_lte(lf, rf)
        },
        Ast::Gte(l, r) => {
            let lf = fold(f, l);
            let rf = fold(f, r);
            f.visit_gte(lf, rf)
        },
        Ast::Lt(l, r) => {
            let lf = fold(f, l);
            let rf = fold(f, r);
            f.visit_lt(lf, rf)
        },
        Ast::Gt(l, r) => {
            let lf = fold(f, l);
            let rf = fold(f, r);
            f.visit_gt(lf, rf)
        },
        Ast::Declaration { identifier, body, rest } => {
            let b = fold(f, body);
            let rf: Option<Box<Ast>> = match rest {
                Option::None => Option::None,
                Option::Some(e) => Option::Some(Box::new(fold(f, e))),
            };
            f.visit_declaration(identifier.clone(), b, rf)
        },
    }
}

/// A folder that overrides nothing: every hook is the default identity
/// reconstruction. It also carries a fresh-name counter that its hooks
/// never consult.
pub struct Rewriter {
    last: usize,
}

impl View for Rewriter {
    type V = nat;

    closed spec fn view(&self) -> nat {
        self.last as nat
    }
}

impl Rewriter {
    /// A rewriter whose counter was never bumped.
    pub fn new() -> (r: Rewriter)
        ensures
            r@ == 0,
    {
        Rewriter { last: 0 }
    }

    /// Draws the next fresh name and bumps the counter.
    pub fn next(&mut self) -> (r: String)
        ensures
            r@ == crate::names::name_seq(old(self)@),
            final(self)@ == next_counter(old(self)@),
    {
        let name = fresh_name(self.last);
        self.last = crate::names::bump(self.last);
        name
    }

    /// Rebuilds `ast` through the identity hooks; the result is
    /// structurally equal to the input.
    pub fn visit(&mut self, ast: &Ast) -> (r: Ast)
        ensures
            r@ == ast@,
            *final(self) == *old(self),
    {
        proof {
            lemma_identity_fold(*self, ast@);
        }
        fold(self, ast)
    }
}

impl Folder for Rewriter {
    fn visit_empty(&mut self) -> (r: Ast) {
        Ast::Empty
    }

    fn visit_number(&mut self, number: Span) -> (r: Ast) {
        Ast::Number(number)
    }

    fn visit_string(&mut self, string: Span) -> (r: Ast) {
        Ast::Str(string)
    }

    fn visit_bool(&mut self, b: Bool) -> (r: Ast) {
        Ast::Bool(b)
    }

    fn visit_identifier(&mut self, identifier: Identifier) -> (r: Ast) {
        Ast::Identifier(identifier)
    }

    fn visit_program(&mut self, ast: Ast) -> (r: Ast) {
        Ast::Program(Box::new(ast))
    }

    fn visit_label(&mut self, label: Label) -> (r: Label) {
        label
    }

    fn visit_function(&mut self, labels: Vec<Label>, program: Ast) -> (r: Ast) {
        Ast::Function { labels, body: Box::new(program) }
    }

    fn visit_application(&mut self, identifier: Identifier, arguments: Vec<Ast>) -> (r: Ast) {
        Ast::Application { identifier, arguments }
    }

    fn visit_conditional(
        &mut self,
        condition: Ast,
        true_branch: Ast,
        else_branch: Option<Box<Ast>>,
    ) -> (r: Ast) {
        Ast::Conditional {
            condition: Box::new(condition),
            true_branch: Box::new(true_branch),
            else_branch,
        }
    }

    fn visit_declaration(
        &mut self,
        identifier: Identifier,
        body: Ast,
        rest: Option<Box<Ast>>,
    ) -> (r: Ast) {
        Ast::Declaration { identifier, body: Box::new(body), rest }
    }

    fn visit_plus(&mut self, lhs: Ast, rhs: Ast) -> (r: Ast) {
        Ast::Plus(Box::new(lhs), Box::new(rhs))
    }

    fn visit_minus(&mut self, lhs: Ast, rhs: Ast) -> (r: Ast) {
        Ast::Minus(Box::new(lhs), Box::new(rhs))
    }

    fn visit_mult(&mut self, lhs: Ast, rhs: Ast) -> (r: Ast) {
        Ast::Mult(Box::new(lhs), Box::new(rhs))
    }

    fn visit_div(&mut self, lhs: Ast, rhs: Ast) -> (r: Ast) {
        Ast::Div(Box::new(lhs), Box::new(rhs))
    }

    fn visit_lte(&mut self, lhs: Ast, rhs: Ast) -> (r: Ast) {
        Ast::Lte(Box::new(lhs), Box::new(rhs))
    }

    fn visit_gte(&mut self, lhs: Ast, rhs: Ast) -> (r: Ast) {
        Ast::Gte(Box::new(lhs), Box::new(rhs))
    }

    fn visit_lt(&mut self, lhs: Ast, rhs: Ast) -> (r: Ast) {
        Ast::Lt(Box::new(lhs), Box::new(rhs))
    }

    fn visit_gt(&mut self, lhs: Ast, rhs: Ast) -> (r: Ast) {
        Ast::Gt(Box::new(lhs), Box::new(rhs))
    }
}

/// Identity law: a folder that overrides nothing rebuilds any tree
/// structurally equal to the input and leaves its state untouched.
pub proof fn lemma_identity_fold(rw: Rewriter, t: AstView)
    ensures
        spec_fold(rw, t) == (rw, t),
    decreases t,
{
    match t {
        AstView::Program(p) => {
            lemma_identity_fold(rw, *p);
        },
        AstView::Function { labels, body } => {
            lemma_identity_fold_labels(rw, labels);
            lemma_identity_fold(rw, *body);
        },
        AstView::Application { identifier, arguments } => {
            lemma_identity_fold_args(rw, arguments);
        },
        AstView::Conditional { condition, true_branch, else_branch } => {
            lemma_identity_fold(rw, *condition);
            lemma_identity_fold(rw, *true_branch);
            match else_branch {
                Option::None => {
                },
                Option::Some(e) => {
                    lemma_identity_fold(rw, *e);
                },
            }
        },
        AstView::Plus(l, r) => {
            lemma_identity_fold(rw, *l);
            lemma_identity_fold(rw, *r);
        },
        AstView::Minus(l, r) => {
            lemma_identity_fold(rw, *l);
            lemma_identity_fold(rw, *r);
        },
        AstView::Mult(l, r) => {
            lemma_identity_fold(rw, *l);
            lemma_identity_fold(rw, *r);
        },
        AstView::Div(l, r) => {
            lemma_identity_fold(rw, *l);
            lemma_identity_fold(rw, *r);
        },
        AstView::Lte(l, r) => {
            lemma_identity_fold(rw, *l);
            lemma_identity_fold(rw, *r);
        },
        AstView::Gte(l, r) => {
            lemma_identity_fold(rw, *l);
            lemma_identity_fold(rw, *r);
        },
        AstView::Lt(l, r) => {
            lemma_identity_fold(rw, *l);
            lemma_identity_fold(rw, *r);
        },
        AstView::Gt(l, r) => {
            lemma_identity_fold(rw, *l);
            lemma_identity_fold(rw, *r);
        },
        AstView::Declaration { identifier, body, rest } => {
            lemma_identity_fold(rw, *body);
            match rest {
                Option::None => {
                },
                Option::Some(e) => {
                    lemma_identity_fold(rw, *e);
                },
            }
        },
        _ => {
        },
    }
}

/// The identity folder rebuilds a sequence of subtrees unchanged.
pub proof fn lemma_identity_fold_args(rw: Rewriter, s: Seq<AstView>)
    ensures
        spec_fold_args(rw, s) == (rw, s),
    decreases s,
{
    if s.len() == 0 {
        assert(spec_fold_args(rw, s).1 =~= s);
    } else {
        lemma_identity_fold_args(rw, s.drop_last());
        lemma_identity_fold(rw, s.last());
        assert(spec_fold_args(rw, s).1 =~= s);
    }
}

/// The identity folder rebuilds a sequence of labels unchanged.
pub proof fn lemma_identity_fold_labels(rw: Rewriter, s: Seq<LabelView>)
    ensures
        spec_fold_labels(rw, s) == (rw, s),
    decreases s,
{
    if s.len() == 0 {
        assert(spec_fold_labels(rw, s).1 =~= s);
    } else {
        lemma_identity_fold_labels(rw, s.drop_last());
        assert(spec_fold_labels(rw, s).1 =~= s);
    }
}

} // verus!
