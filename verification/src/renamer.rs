//! The renaming pass: a folder that overrides only the identifier case.
//!
//! Every identifier node — binding and use occurrences alike — is renamed
//! independently, in left-to-right traversal order, with no shared table:
//! two occurrences of the same source name receive two different fresh
//! names. This is a deliberate simplification, not alpha-renaming; the
//! original source span of each identifier stays untouched.

use vstd::prelude::*;

use crate::ast::Ast;
use crate::ast::AstView;
use crate::ast::IdentView;
use crate::ast::Identifier;
use crate::ast::Label;
use crate::ast::LabelView;
use crate::folder::Folder;
use crate::folder::fold;
use crate::folder::spec_fold;
use crate::folder::spec_fold_args;
use crate::folder::spec_fold_labels;
use crate::names::bump;
use crate::names::fresh_name;
use crate::names::name_seq;
use crate::names::next_counter;
use crate::span::Span;

verus! {

/// A deterministic fresh-name generator: one private counter, bumped at
/// every draw.
pub struct Namer {
    last: usize,
}

impl View for Namer {
    type V = nat;

    closed spec fn view(&self) -> nat {
        self.last as nat
    }
}

impl Namer {
    /// A generator whose counter was never bumped.
    pub fn new() -> (n: Namer)
        ensures
            n@ == 0,
    {
        Namer { last: 0 }
    }

    /// Draws the name for the current counter value and bumps the counter.
    pub fn next(&mut self) -> (r: String)
        ensures
            r@ == name_seq(old(self)@),
            final(self)@ == next_counter(old(self)@),
    {
        let name = fresh_name(self.last);
        self.last = bump(self.last);
        name
    }
}

/// The renaming pass: a folder whose only state is one private name
/// generator, owned exclusively by this pass instance.
pub struct Renamer {
    namer: Namer,
}

impl View for Renamer {
    type V = nat;

    closed spec fn view(&self) -> nat {
        self.namer@
    }
}

/// The renamer state whose counter stands at `c`.
spec fn at_counter(c: nat) -> Renamer {
    Renamer { namer: Namer { last: c as usize } }
}

impl Renamer {
    /// A pass whose name generator was never drawn from.
    pub fn new() -> (r: Renamer)
        ensures
            r@ == 0,
    {
        Renamer { namer: Namer::new() }
    }

    /// Rebuilds `ast` with every identifier node renamed in traversal
    /// order, exactly as [`rename_ast`] states it.
    pub fn visit(&mut self, ast: &Ast) -> (r: Ast)
        ensures
            r@ == rename_ast(ast@, old(self)@).0,
            final(self)@ == rename_ast(ast@, old(self)@).1,
    {
        proof {
            assert(at_counter(self@) == *self);
            lemma_rename_fold(*self, ast@);
        }
        fold(self, ast)
    }
}

impl Folder for Renamer {
    /// Renaming: the identifier's internal name is replaced by the next
    /// fresh name and the counter is bumped; the span stays untouched.
    closed spec fn identifier_spec(pre: Self, identifier: IdentView) -> (Self, AstView) {
        (
            at_counter(next_counter(pre.namer@)),
            AstView::Identifier(
                IdentView { name: identifier.name, internal: name_seq(pre.namer@) },
            ),
        )
    }

    fn visit_identifier(&mut self, identifier: Identifier) -> (r: Ast) {
        let name = self.namer.next();
        Ast::Identifier(identifier.rename(name))
    }

    fn visit_empty(&mut self) -> (r: Ast) {
        Ast::Empty
    }

    fn visit_number(&mut self, number: Span) -> (r: Ast) {
        Ast::Number(number)
    }

    fn visit_string(&mut self, string: Span) -> (r: Ast) {
        Ast::Str(string)
    }

    fn visit_bool(&mut self, b: crate::ast::Bool) -> (r: Ast) {
        Ast::Bool(b)
    }

    fn visit_program(&mut self, ast: Ast) -> (r: Ast) {
        Ast::Program(Box::new(ast))
    }

    fn visit_label(&mut self, label: Label) -> (r: Label) {
        label
    }

    fn visit_function(&mut self, labels: Vec<Label>, program: Ast) -> (r: Ast) {
        Ast::Function { labels, body: Box::new(program) }
    }

    fn visit_application(&mut self, identifier: Identifier, arguments: Vec<Ast>) -> (r: Ast) {
        Ast::Application { identifier, arguments }
    }

    fn visit_conditional(
        &mut self,
        condition: Ast,
        true_branch: Ast,
        else_branch: Option<Box<Ast>>,
    ) -> (r: Ast) {
        Ast::Conditional {
            condition: Box::new(condition),
            true_branch: Box::new(true_branch),
            else_branch,
        }
    }

    fn visit_declaration(
        &mut self,
        identifier: Identifier,
        body: Ast,
        rest: Option<Box<Ast>>,
    ) -> (r: Ast) {
        Ast::Declaration { identifier, body: Box::new(body), rest }
    }

    fn visit_plus(&mut self, lhs: Ast, rhs: Ast) -> (r: Ast) {
        Ast::Plus(Box::new(lhs), Box::new(rhs))
    }

    fn visit_minus(&mut self, lhs: Ast, rhs: Ast) -> (r: Ast) {
        Ast::Minus(Box::new(lhs), Box::new(rhs))
    }

    fn visit_mult(&mut self, lhs: Ast, rhs: Ast) -> (r: Ast) {
        Ast::Mult(Box::new(lhs), Box::new(rhs))
    }

    fn visit_div(&mut self, lhs: Ast, rhs: Ast) -> (r: Ast) {
        Ast::Div(Box::new(lhs), Box::new(rhs))
    }

    fn visit_lte(&mut self, lhs: Ast, rhs: Ast) -> (r: Ast) {
        Ast::Lte(Box::new(lhs), Box::new(rhs))
    }

    fn visit_gte(&mut self, lhs: Ast, rhs: Ast) -> (r: Ast) {
        Ast::Gte(Box::new(lhs), Box::new(rhs))
    }

    fn visit_lt(&mut self, lhs: Ast, rhs: Ast) -> (r: Ast) {
        Ast::Lt(Box::new(lhs), Box::new(rhs))
    }

    fn visit_gt(&mut self, lhs: Ast, rhs: Ast) -> (r: Ast) {
        Ast::Gt(Box::new(lhs), Box::new(rhs))
    }
}

/// What the renaming pass produces from tree `t` when the counter stands
/// at `c`: the renamed tree and the counter after the pass. Identifier
/// nodes are renamed in left-to-right traversal order; everything else is
/// rebuilt unchanged.
pub open spec fn rename_ast(t: AstView, c: nat) -> (AstView, nat)
    decreases t,
{
    match t {
        AstView::Empty => (AstView::Empty, c),
        AstView::Number(s) => (AstView::Number(s), c),
        AstView::Str(s) => (AstView::Str(s), c),
        AstView::Bool(b) => (AstView::Bool(b), c),
        AstView::Identifier(i) => (
            AstView::Identifier(IdentView { name: i.name, internal: name_seq(c) }),
            next_counter(c),
        ),
        AstView::Program(p) => {
            let (q, c1) = rename_ast(*p, c);
            (AstView::Program(Box::new(q)), c1)
        },
        AstView::Function { labels, body } => {
            let (b, c1) = rename_ast(*body, c);
            (AstView::Function { labels, body: Box::new(b) }, c1)
        },
        AstView::Application { identifier, arguments } => {
            let (args, c1) = rename_asts(arguments, c);
            (AstView::Application { identifier, arguments: args }, c1)
        },
        AstView::Conditional { condition, true_branch, else_branch } => {
            let (cn, c1) = rename_ast(*condition, c);
            let (tb, c2) = rename_ast(*true_branch, c1);
            match else_branch {
                Option::None => (
                    AstView::Conditional {
                        condition: Box::new(cn),
                        true_branch: Box::new(tb),
                        else_branch: Option::None,
                    },
                    c2,
                ),
                Option::Some(e) => {
                    let (eb, c3) = rename_ast(*e, c2);
                    (
                        AstView::Conditional {
                            condition: Box::new(cn),
                            true_branch: Box::new(tb),
                            else_branch: Option::Some(Box::new(eb)),
                        },
                        c3,
                    )
                },
            }
        },
        AstView::Plus(l, r) => {
            let (lf, c1) = rename_ast(*l, c);
            let (rf, c2) = rename_ast(*r, c1);
            (AstView::Plus(Box::new(lf), Box::new(rf)), c2)
        },
        AstView::Minus(l, r) => {
            let (lf, c1) = rename_ast(*l, c);
            let (rf, c2) = rename_ast(*r, c1);
            (AstView::Minus(Box::new(lf), Box::new(rf)), c2)
        },
        AstView::Mult(l, r) => {
            let (lf, c1) = rename_ast(*l, c);
            let (rf, c2) = rename_ast(*r, c1);
            (AstView::Mult(Box::new(lf), Box::new(rf)), c2)
        },
        AstView::Div(l, r) => {
            let (lf, c1) = rename_ast(*l, c);
            let (rf, c2) = rename_ast(*r, c1);
            (AstView::Div(Box::new(lf), Box::new(rf)), c2)
        },
        AstView::Lte(l, r) => {
            let (lf, c1) = rename_ast(*l, c);
            let (rf, c2) = rename_ast(*r, c1);
            (AstView::Lte(Box::new(lf), Box::new(rf)), c2)
        },
        AstView::Gte(l, r) => {
            let (lf, c1) = rename_ast(*l, c);
            let (rf, c2) = rename_ast(*r, c1);
            (AstView::Gte(Box::new(lf), Box::new(rf)), c2)
        },
        AstView::Lt(l, r) => {
            let (lf, c1) = rename_ast(*l, c);
            let (rf, c2) = rename_ast(*r, c1);
            (AstView::Lt(Box::new(lf), Box::new(rf)), c2)
        },
        AstView::Gt(l, r) => {
            let (lf, c1) = rename_ast(*l, c);
            let (rf, c2) = rename_ast(*r, c1);
            (AstView::Gt(Box::new(lf), Box::new(rf)), c2)
        },
        AstView::Declaration { identifier, body, rest } => {
            let (b, c1) = rename_ast(*body, c);
            match rest {
                Option::None => (
                    AstView::Declaration {
                        identifier,
                        body: Box::new(b),
                        rest: Option::None,
                    },
                    c1,
                ),
                Option::Some(e) => {
                    let (rf, c2) = rename_ast(*e, c1);
                    (
                        AstView::Declaration {
                            identifier,
                            body: Box::new(b),
                            rest: Option::Some(Box::new(rf)),
                        },
                        c2,
                    )
                },
            }
        },
    }
}

/// Renames a sequence of subtrees left to right, threading the counter.
pub open spec fn rename_asts(s: Seq<AstView>, c: nat) -> (Seq<AstView>, nat)
    decreases s,
{
    if s.len() == 0 {
        (Seq::empty(), c)
    } else {
        let (ts, c1) = rename_asts(s.drop_last(), c);
        let (t, c2) = rename_ast(s.last(), c1);
        (ts.push(t), c2)
    }
}

/// The internal names of the identifier nodes of `t`, in left-to-right
/// traversal order.
pub open spec fn ident_names(t: AstView) -> Seq<Seq<char>>
    decreases t,
{
    match t {
        AstView::Identifier(i) => seq![i.internal],
        AstView::Program(p) => ident_names(*p),
        AstView::Function { labels, body } => ident_names(*body),
        AstView::Application { identifier, arguments } => ident_names_seq(arguments),
        AstView::Conditional { condition, true_branch, else_branch } => ident_names(*condition)
            + ident_names(*true_branch) + (match else_branch {
            Option::None => Seq::empty(),
            Option::Some(e) => ident_names(*e),
        }),
        AstView::Plus(l, r) => ident_names(*l) + ident_names(*r),
        AstView::Minus(l, r) => ident_names(*l) + ident_names(*r),
        AstView::Mult(l, r) => ident_names(*l) + ident_names(*r),
        AstView::Div(l, r) => ident_names(*l) + ident_names(*r),
        AstView::Lte(l, r) => ident_names(*l) + ident_names(*r),
        AstView::Gte(l, r) => ident_names(*l) + ident_names(*r),
        AstView::Lt(l, r) => ident_names(*l) + ident_names(*r),
        AstView::Gt(l, r) => ident_names(*l) + ident_names(*r),
        AstView::Declaration { identifier, body, rest } => ident_names(*body) + (match rest {
            Option::None => Seq::empty(),
            Option::Some(e) => ident_names(*e),
        }),
        _ => Seq::empty(),
    }
}

/// The identifier names of a sequence of subtrees, left to right.
pub open spec fn ident_names_seq(s: Seq<AstView>) -> Seq<Seq<char>>
    decreases s,
{
    if s.len() == 0 {
        Seq::empty()
    } else {
        ident_names_seq(s.drop_last()) + ident_names(s.last())
    }
}

/// The renaming pass through the folder dispatch agrees with the
/// [`rename_ast`] model.
proof fn lemma_rename_fold(rn: Renamer, t: AstView)
    ensures
        spec_fold(rn, t) == (at_counter(rename_ast(t, rn@).1), rename_ast(t, rn@).0),
        rename_ast(t, rn@).1 <= usize::MAX as nat,
    decreases t,
{
    assert(rn.namer@ <= usize::MAX as nat);
    match t {
        AstView::Identifier(i) => {
            assert(at_counter(rn@) == rn);
        },
        AstView::Program(p) => {
            lemma_rename_fold(rn, *p);
        },
        AstView::Function { labels, body } => {
            lemma_rename_fold_labels(rn, labels);
            lemma_rename_fold(rn, *body);
        },
        AstView::Application { identifier, arguments } => {
            lemma_rename_fold_args(rn, arguments);
        },
        AstView::Conditional { condition, true_branch, else_branch } => {
            lemma_rename_fold(rn, *condition);
            let c1 = rename_ast(*condition, rn@).1;
            lemma_rename_fold(at_counter(c1), *true_branch);
            let c2 = rename_ast(*true_branch, c1).1;
            match else_branch {
                Option::None => {
                },
                Option::Some(e) => {
                    lemma_rename_fold(at_counter(c2), *e);
                },
            }
        },
        AstView::Plus(l, r) => {
            lemma_rename_fold(rn, *l);
            lemma_rename_fold(at_counter(rename_ast(*l, rn@).1), *r);
        },
        AstView::Minus(l, r) => {
            lemma_rename_fold(rn, *l);
            lemma_rename_fold(at_counter(rename_ast(*l, rn@).1), *r);
        },
        AstView::Mult(l, r) => {
            lemma_rename_fold(rn, *l);
            lemma_rename_fold(at_counter(rename_ast(*l, rn@).1), *r);
        },
        AstView::Div(l, r) => {
            lemma_rename_fold(rn, *l);
            lemma_rename_fold(at_counter(rename_ast(*l, rn@).1), *r);
        },
        AstView::Lte(l, r) => {
            lemma_rename_fold(rn, *l);
            lemma_rename_fold(at_counter(rename_ast(*l, rn@).1), *r);
        },
        AstView::Gte(l, r) => {
            lemma_rename_fold(rn, *l);
            lemma_rename_fold(at_counter(rename_ast(*l, rn@).1), *r);
        },
        AstView::Lt(l, r) => {
            lemma_rename_fold(rn, *l);
            lemma_rename_fold(at_counter(rename_ast(*l, rn@).1), *r);
        },
        AstView::Gt(l, r) => {
            lemma_rename_fold(rn, *l);
            lemma_rename_fold(at_counter(rename_ast(*l, rn@).1), *r);
        },
        AstView::Declaration { identifier, body, rest } => {
            lemma_rename_fold(rn, *body);
            match rest {
                Option::None => {
                },
                Option::Some(e) => {
                    lemma_rename_fold(at_counter(rename_ast(*body, rn@).1), *e);
                },
            }
        },
        _ => {
        },
    }
}

/// Sequence version of [`lemma_rename_fold`].
proof fn lemma_rename_fold_args(rn: Renamer, s: Seq<AstView>)
    ensures
        spec_fold_args(rn, s) == (at_counter(rename_asts(s, rn@).1), rename_asts(s, rn@).0),
        rename_asts(s, rn@).1 <= usize::MAX as nat,
    decreases s,
{
    assert(rn.namer@ <= usize::MAX as nat);
    if s.len() == 0 {
        assert(at_counter(rn@) == rn);
    } else {
        lemma_rename_fold_args(rn, s.drop_last());
        lemma_rename_fold(at_counter(rename_asts(s.drop_last(), rn@).1), s.last());
    }
}

/// The renaming pass leaves labels unchanged.
proof fn lemma_rename_fold_labels(rn: Renamer, s: Seq<LabelView>)
    ensures
        spec_fold_labels(rn, s) == (rn, s),
    decreases s,
{
    if s.len() == 0 {
        assert(spec_fold_labels(rn, s).1 =~= s);
    } else {
        lemma_rename_fold_labels(rn, s.drop_last());
        assert(spec_fold_labels(rn, s).1 =~= s);
    }
}

/// Renaming determinism: as long as the counter does not reach the machine
/// limit, the identifier nodes of the renamed tree carry the fresh names
/// for the counter values `c`, `c + 1`, ... in traversal order — one new
/// name per occurrence, never reused — and the pass ends with the counter
/// advanced by exactly the number of occurrences.
#[verifier::rlimit(60)]
pub proof fn lemma_rename_fresh_names(t: AstView, c: nat)
    requires
        c + ident_names(t).len() <= usize::MAX as nat,
    ensures
        rename_ast(t, c).1 == c + ident_names(t).len(),
        ident_names(rename_ast(t, c).0) =~= Seq::new(
            ident_names(t).len(),
            |i: int| name_seq((c + i) as nat),
        ),
    decreases t,
{
    match t {
        AstView::Identifier(i) => {
        },
        AstView::Program(p) => {
            lemma_rename_fresh_names(*p, c);
        },
        AstView::Function { labels, body } => {
            lemma_rename_fresh_names(*body, c);
        },
        AstView::Application { identifier, arguments } => {
            lemma_rename_fresh_names_seq(arguments, c);
        },
        AstView::Conditional { condition, true_branch, else_branch } => {
            lemma_rename_fresh_names(*condition, c);
            let c1 = rename_ast(*condition, c).1;
            lemma_rename_fresh_names(*true_branch, c1);
            let c2 = rename_ast(*true_branch, c1).1;
            match else_branch {
                Option::None => {
                },
                Option::Some(e) => {
                    lemma_rename_fresh_names(*e, c2);
                },
            }
        },
        AstView::Plus(l, r) => {
            lemma_rename_fresh_names(*l, c);
            lemma_rename_fresh_names(*r, rename_ast(*l, c).1);
        },
        AstView::Minus(l, r) => {
            lemma_rename_fresh_names(*l, c);
            lemma_rename_fresh_names(*r, rename_ast(*l, c).1);
        },
        AstView::Mult(l, r) => {
            lemma_rename_fresh_names(*l, c);
            lemma_rename_fresh_names(*r, rename_ast(*l, c).1);
        },
        AstView::Div(l, r) => {
            lemma_rename_fresh_names(*l, c);
            lemma_rename_fresh_names(*r, rename_ast(*l, c).1);
        },
        AstView::Lte(l, r) => {
            lemma_rename_fresh_names(*l, c);
            lemma_rename_fresh_names(*r, rename_ast(*l, c).1);
        },
        AstView::Gte(l, r) => {
            lemma_rename_fresh_names(*l, c);
            lemma_rename_fresh_names(*r, rename_ast(*l, c).1);
        },
        AstView::Lt(l, r) => {
            lemma_rename_fresh_names(*l, c);
            lemma_rename_fresh_names(*r, rename_ast(*l, c).1);
        },
        AstView::Gt(l, r) => {
            lemma_rename_fresh_names(*l, c);
            lemma_rename_fresh_names(*r, rename_ast(*l, c).1);
        },
        AstView::Declaration { identifier, body, rest } => {
            lemma_rename_fresh_names(*body, c);
            match rest {
                Option::None => {
                },
                Option::Some(e) => {
                    lemma_rename_fresh_names(*e, rename_ast(*body, c).1);
                },
            }
        },
        _ => {
        },
    }
}

/// Sequence version of [`lemma_rename_fresh_names`].
pub proof fn lemma_rename_fresh_names_seq(s: Seq<AstView>, c: nat)
    requires
        c + ident_names_seq(s).len() <= usize::MAX as nat,
    ensures
        rename_asts(s, c).1 == c + ident_names_seq(s).len(),
        ident_names_seq(rename_asts(s, c).0) =~= Seq::new(
            ident_names_seq(s).len(),
            |i: int| name_seq((c + i) as nat),
        ),
    decreases s,
{
    if s.len() > 0 {
        lemma_rename_fresh_names_seq(s.drop_last(), c);
        lemma_rename_fresh_names(s.last(), rename_asts(s.drop_last(), c).1);
        let renamed = rename_asts(s, c).0;
        assert(renamed.drop_last() == rename_asts(s.drop_last(), c).0);
        assert(renamed.last() == rename_ast(s.last(), rename_asts(s.drop_last(), c).1).0);
    }
}

/// Renaming is independent of the source text: two programs with equally
/// many identifier occurrences receive the same sequence of fresh names,
/// whatever the original identifiers were spelled like, and two runs from
/// fresh pass instances over the same program draw identical names.
pub proof fn lemma_rename_spelling_independent(t1: AstView, t2: AstView, c: nat)
    requires
        ident_names(t1).len() == ident_names(t2).len(),
        c + ident_names(t1).len() <= usize::MAX as nat,
    ensures
        ident_names(rename_ast(t1, c).0) == ident_names(rename_ast(t2, c).0),
{
    lemma_rename_fresh_names(t1, c);
    lemma_rename_fresh_names(t2, c);
    assert(ident_names(rename_ast(t1, c).0) =~= ident_names(rename_ast(t2, c).0));
}

} // verus!
