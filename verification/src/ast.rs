//! The abstract syntax tree: a closed recursive sum type produced by the
//! tree builder, plus the mathematical view each node kind maps to.
//!
//! Children are exclusively owned by their parent; there is no sharing and
//! there are no cycles. Nodes are immutable once built: transformations
//! produce new trees.

use vstd::prelude::*;

use crate::span::Span;
use crate::span::SpanView;

verus! {

/// A boolean literal tag.
#[derive(Debug, Eq, PartialEq, Structural, Clone, Copy)]
pub enum Bool {
    True,
    False,
}

/// Mathematical model of an [`Identifier`].
#[verifier::ext_equal]
pub struct IdentView {
    pub name: SpanView,
    pub internal: Seq<char>,
}

/// A name occurrence: the original source span, plus an internal name that
/// is initially the source text and may be replaced by a renaming pass.
///
/// Two identifiers are equal only if both the span and the internal name
/// match.
#[derive(Debug, Eq, PartialEq)]
pub struct Identifier {
    name: Span,
    internal: String,
}

impl View for Identifier {
    type V = IdentView;

    closed spec fn view(&self) -> IdentView {
        IdentView { name: self.name@, internal: self.internal@ }
    }
}

impl Identifier {
    /// A fresh identifier whose internal name is the literal source text.
    pub fn new(name: Span) -> (r: Identifier)
        ensures
            r@ == (IdentView { name: name@, internal: name@.text }),
    {
        let internal = name.as_str().to_owned();
        Identifier { name, internal }
    }

    /// A copy of this identifier whose internal name is `name`; the source
    /// span stays untouched.
    pub fn rename(&self, name: String) -> (r: Identifier)
        ensures
            r@ == (IdentView { name: self@.name, internal: name@ }),
    {
        Identifier { name: self.name.duplicate(), internal: name }
    }

    /// The source span of this name occurrence.
    pub fn name(&self) -> (r: &Span)
        ensures
            r@ == self@.name,
    {
        &self.name
    }

    /// The internal name seen by consumers of this identifier.
    pub fn internal(&self) -> (r: &str)
        ensures
            r@ == self@.internal,
    {
        self.internal.as_str()
    }
}

/// Mathematical model of a [`Label`].
#[verifier::ext_equal]
pub struct LabelView {
    pub identifier: IdentView,
}

/// A formal parameter of a function: wraps exactly one identifier.
#[derive(Debug, Eq, PartialEq)]
pub struct Label {
    identifier: Identifier,
}

impl View for Label {
    type V = LabelView;

    closed spec fn view(&self) -> LabelView {
        LabelView { identifier: self.identifier@ }
    }
}

impl Label {
    /// Wraps `identifier` as a formal parameter.
    pub fn new(identifier: Identifier) -> (r: Label)
        ensures
            r@ == (LabelView { identifier: identifier@ }),
    {
        Label { identifier }
    }

    /// The identifier this parameter binds.
    pub fn identifier(&self) -> (r: &Identifier)
        ensures
            r@ == self@.identifier,
    {
        &self.identifier
    }
}

/// Mathematical model of an [`Ast`]: the same variant set over sequences
/// and span views.
#[verifier::ext_equal]
pub enum AstView {
    Empty,
    Number(SpanView),
    Identifier(IdentView),
    Str(SpanView),
    Bool(Bool),
    Program(Box<AstView>),
    Function { labels: Seq<LabelView>, body: Box<AstView> },
    Application { identifier: IdentView, arguments: Seq<AstView> },
    Conditional { condition: Box<AstView>, true_branch: Box<AstView>, else_branch: Option<
        Box<AstView>,
    > },
    Plus(Box<AstView>, Box<AstView>),
    Minus(Box<AstView>, Box<AstView>),
    Mult(Box<AstView>, Box<AstView>),
    Div(Box<AstView>, Box<AstView>),
    Lte(Box<AstView>, Box<AstView>),
    Gte(Box<AstView>, Box<AstView>),
    Lt(Box<AstView>, Box<AstView>),
    Gt(Box<AstView>, Box<AstView>),
    Declaration { identifier: IdentView, body: Box<AstView>, rest: Option<Box<AstView>> },
}

/// The abstract syntax tree of one source unit.
///
/// Every parsed unit is rooted in `Program` with exactly one child; an empty
/// input yields `Program(Empty)`. Binary-operator trees are strictly binary
/// and left-deep for same-precedence chains.
#[derive(Debug, Eq, PartialEq)]
pub enum Ast {
    Empty,
    Number(Span),
    Identifier(Identifier),
    Str(Span),
    Bool(Bool),
    Program(Box<Ast>),
    Function { labels: Vec<Label>, body: Box<Ast> },
    Application { identifier: Identifier, arguments: Vec<Ast> },
    Conditional { condition: Box<Ast>, true_branch: Box<Ast>, else_branch: Option<Box<Ast>> },
    Plus(Box<Ast>, Box<Ast>),
    Minus(Box<Ast>, Box<Ast>),
    Mult(Box<Ast>, Box<Ast>),
    Div(Box<Ast>, Box<Ast>),
    Lte(Box<Ast>, Box<Ast>),
    Gte(Box<Ast>, Box<Ast>),
    Lt(Box<Ast>, Box<Ast>),
    Gt(Box<Ast>, Box<Ast>),
    Declaration { identifier: Identifier, body: Box<Ast>, rest: Option<Box<Ast>> },
}

/// The view of a sequence of labels, element by element.
pub open spec fn labels_view(s: Seq<Label>) -> Seq<LabelView> {
    Seq::new(s.len(), |i: int| s[i]@)
}

/// The view of one tree.
pub open spec fn ast_view(a: Ast) -> AstView
    decreases a,
{
    match a {
        Ast::Empty => AstView::Empty,
        Ast::Number(s) => AstView::Number(s@),
        Ast::Identifier(i) => AstView::Identifier(i@),
        Ast::Str(s) => AstView::Str(s@),
        Ast::Bool(b) => AstView::Bool(b),
        Ast::Program(p) => AstView::Program(Box::new(ast_view(*p))),
        Ast::Function { labels, body } => AstView::Function {
            labels: labels_view(labels@),
            body: Box::new(ast_view(*body)),
        },
        Ast::Application { identifier, arguments } => AstView::Application {
            identifier: identifier@,
            arguments: asts_view(arguments@),
        },
        Ast::Conditional { condition, true_branch, else_branch } => AstView::Conditional {
            condition: Box::new(ast_view(*condition)),
            true_branch: Box::new(ast_view(*true_branch)),
            else_branch: match else_branch {
                Option::None => Option::None,
                Option::Some(e) => Option::Some(Box::new(ast_view(*e))),
            },
        },
        Ast::Plus(l, r) => AstView::Plus(Box::new(ast_view(*l)), Box::new(ast_view(*r))),
        Ast::Minus(l, r) => AstView::Minus(Box::new(ast_view(*l)), Box::new(ast_view(*r))),
        Ast::Mult(l, r) => AstView::Mult(Box::new(ast_view(*l)), Box::new(ast_view(*r))),
        Ast::Div(l, r) => AstView::Div(Box::new(ast_view(*l)), Box::new(ast_view(*r))),
        Ast::Lte(l, r) => AstView::Lte(Box::new(ast_view(*l)), Box::new(ast_view(*r))),
        Ast::Gte(l, r) => AstView::Gte(Box::new(ast_view(*l)), Box::new(ast_view(*r))),
        Ast::Lt(l, r) => AstView::Lt(Box::new(ast_view(*l)), Box::new(ast_view(*r))),
        Ast::Gt(l, r) => AstView::Gt(Box::new(ast_view(*l)), Box::new(ast_view(*r))),
        Ast::Declaration { identifier, body, rest } => AstView::Declaration {
            identifier: identifier@,
            body: Box::new(ast_view(*body)),
            rest: match rest {
                Option::None => Option::None,
                Option::Some(e) => Option::Some(Box::new(ast_view(*e))),
            },
        },
    }
}

/// The view of a sequence of trees, element by element.
pub open spec fn asts_view(s: Seq<Ast>) -> Seq<AstView>
    decreases s,
{
    if s.len() == 0 {
        Seq::empty()
    } else {
        asts_view(s.drop_last()).push(ast_view(s.last()))
    }
}

impl View for Ast {
    type V = AstView;

    open spec fn view(&self) -> AstView {
        ast_view(*self)
    }
}

impl Clone for Identifier {
    /// A clone is equal to the original, span and internal name included.
    fn clone(&self) -> (r: Identifier)
        ensures
            r@ == self@,
    {
        Identifier { name: self.name.duplicate(), internal: self.internal.clone() }
    }
}

impl Clone for Label {
    /// A clone is equal to the original.
    fn clone(&self) -> (r: Label)
        ensures
            r@ == self@,
    {
        Label { identifier: self.identifier.clone() }
    }
}

/// A deep copy of one tree, equal to the original in every node.
#[verifier::loop_isolation(false)]
fn clone_ast(a: &Ast) -> (r: Ast)
    ensures
        r@ == a@,
    decreases *a,
{
    match a {
        Ast::Empty => Ast::Empty,
        Ast::Number(s) => Ast::Number(s.duplicate()),
        Ast::Identifier(i) => Ast::Identifier(i.clone()),
        Ast::Str(s) => Ast::Str(s.duplicate()),
        Ast::Bool(b) => Ast::Bool(*b),
        Ast::Program(p) => Ast::Program(Box::new(clone_ast(p))),
        Ast::Function { labels, body } => {
            let mut ls: Vec<Label> = Vec::new();
            let mut k: usize = 0;
            while k < labels.len()
                invariant
                    k <= labels.len(),
                    ls@.len() == k as int,
                    forall|j: int| 0 <= j < k as int ==> ls@[j]@ == labels@[j]@,
                decreases labels.len() - k,
            {
                ls.push(labels[k].clone());
                k = k + 1;
            }
            proof {
                assert(labels_view(ls@) =~= labels_view(labels@));
            }
            Ast::Function { labels: ls, body: Box::new(clone_ast(body)) }
        },
        Ast::Application { identifier, arguments } => {
            let mut args: Vec<Ast> = Vec::new();
            let mut k: usize = 0;
            while k < arguments.len()
                invariant
                    k <= arguments.len(),
                    args@.len() == k as int,
                    forall|j: int| 0 <= j < k as int ==> args@[j]@ == arguments@[j]@,
                decreases arguments.len() - k,
            {
                args.push(clone_ast(&arguments[k]));
                k = k + 1;
            }
            proof {
                lemma_asts_view(args@);
                lemma_asts_view(arguments@);
                assert(asts_view(args@) =~= asts_view(arguments@));
            }
            Ast::Application { identifier: identifier.clone(), arguments: args }
        },
        Ast::Conditional { condition, true_branch, else_branch } => Ast::Conditional {
            condition: Box::new(clone_ast(condition)),
            true_branch: Box::new(clone_ast(true_branch)),
            else_branch: match else_branch {
                Option::None => Option::None,
                Option::Some(e) => Option::Some(Box::new(clone_ast(e))),
            },
        },
        Ast::Plus(l, r) => Ast::Plus(Box::new(clone_ast(l)), Box::new(clone_ast(r))),
        Ast::Minus(l, r) => Ast::Minus(Box::new(clone_ast(l)), Box::new(clone_ast(r))),
        Ast::Mult(l, r) => Ast::Mult(Box::new(clone_ast(l)), Box::new(clone_ast(r))),
        Ast::Div(l, r) => Ast::Div(Box::new(clone_ast(l)), Box::new(clone_ast(r))),
        Ast::Lte(l, r) => Ast::Lte(Box::new(clone_ast(l)), Box::new(clone_ast(r))),
        Ast::Gte(l, r) => Ast::Gte(Box::new(clone_ast(l)), Box::new(clone_ast(r))),
        Ast::Lt(l, r) => Ast::Lt(Box::new(clone_ast(l)), Box::new(clone_ast(r))),
        Ast::Gt(l, r) => Ast::Gt(Box::new(clone_ast(l)), Box::new(clone_ast(r))),
        Ast::Declaration { identifier, body, rest } => Ast::Declaration {
            identifier: identifier.clone(),
            body: Box::new(clone_ast(body)),
            rest: match rest {
                Option::None => Option::None,
                Option::Some(e) => Option::Some(Box::new(clone_ast(e))),
            },
        },
    }
}

impl Clone for Ast {
    /// A clone is structurally equal to the original.
    fn clone(&self) -> (r: Ast)
        ensures
            r@ == self@,
    {
        clone_ast(self)
    }
}

/// The view of a sequence of trees is the sequence of their views.
pub proof fn lemma_asts_view(s: Seq<Ast>)
    ensures
        asts_view(s).len() == s.len(),
        forall|i: int| 0 <= i < s.len() ==> asts_view(s)[i] == ast_view(s[i]),
    decreases s,
{
    if s.len() > 0 {
        lemma_asts_view(s.drop_last());
    }
}

} // verus!
