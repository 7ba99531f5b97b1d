//! The concrete syntax tree: a root node tagged with a grammar rule,
//! carrying zero or more ordered child nodes, each associated with a span
//! into the original source text. The tree builder is the sole consumer of
//! this shape.

use vstd::prelude::*;

use crate::span::Span;
use crate::span::SpanView;

verus! {

/// The grammar rules a parse node can be tagged with.
#[derive(Debug, Eq, PartialEq, Structural, Clone, Copy)]
#[allow(non_camel_case_types)]
pub enum Rule {
    goat,
    expr,
    number,
    string,
    boolean,
    ident,
    function,
    labels,
    application,
    arguments,
    conditional,
    declaration,
    plus,
    minus,
    multiply,
    divide,
    lte,
    gte,
    lt,
    gt,
    EOI,
}

/// Mathematical model of a [`ParseNode`].
#[verifier::ext_equal]
pub struct NodeView {
    pub rule: Rule,
    pub span: SpanView,
    pub children: Seq<NodeView>,
}

/// One node of the concrete syntax tree.
#[derive(Debug, Eq, PartialEq)]
pub struct ParseNode {
    pub rule: Rule,
    pub span: Span,
    pub children: Vec<ParseNode>,
}

/// The view of one parse node.
pub open spec fn node_view(n: ParseNode) -> NodeView
    decreases n,
{
    NodeView { rule: n.rule, span: n.span@, children: nodes_view(n.children@) }
}

/// The view of a sequence of parse nodes, element by element.
pub open spec fn nodes_view(s: Seq<ParseNode>) -> Seq<NodeView>
    decreases s,
{
    if s.len() == 0 {
        Seq::empty()
    } else {
        nodes_view(s.drop_last()).push(node_view(s.last()))
    }
}

impl View for ParseNode {
    type V = NodeView;

    open spec fn view(&self) -> NodeView {
        node_view(*self)
    }
}

/// The view of a sequence of parse nodes is the sequence of their views.
pub proof fn lemma_nodes_view(s: Seq<ParseNode>)
    ensures
        nodes_view(s).len() == s.len(),
        forall|i: int| 0 <= i < s.len() ==> nodes_view(s)[i] == s[i]@,
    decreases s,
{
    if s.len() > 0 {
        lemma_nodes_view(s.drop_last());
    }
}

impl ParseNode {
    /// Builds a node tagged `rule` over `span` with the given children.
    pub fn new(rule: Rule, span: Span, children: Vec<ParseNode>) -> (r: ParseNode)
        ensures
            r@ == (NodeView { rule, span: span@, children: nodes_view(children@) }),
    {
        ParseNode { rule, span, children }
    }

    /// The grammar rule this node was produced by.
    pub fn as_rule(&self) -> (r: Rule)
        ensures
            r == self@.rule,
    {
        self.rule
    }

    /// The source region this node covers.
    pub fn as_span(&self) -> (r: Span)
        ensures
            r@ == self@.span,
    {
        self.span.duplicate()
    }

    /// The ordered child nodes.
    pub fn children(&self) -> (r: &Vec<ParseNode>)
        ensures
            nodes_view(r@) == self@.children,
    {
        &self.children
    }
}

/// A deep copy of one parse node, equal to the original in every node.
#[verifier::loop_isolation(false)]
fn clone_node(n: &ParseNode) -> (r: ParseNode)
    ensures
        r@ == n@,
    decreases *n,
{
    let mut kids: Vec<ParseNode> = Vec::new();
    let mut k: usize = 0;
    proof {
        lemma_nodes_view(n.children@);
    }
    while k < n.children.len()
        invariant
            k <= n.children.len(),
            kids@.len() == k as int,
            forall|j: int| 0 <= j < k as int ==> kids@[j]@ == n.children@[j]@,
        decreases n.children.len() - k,
    {
        kids.push(clone_node(&n.children[k]));
        k = k + 1;
    }
    proof {
        lemma_nodes_view(kids@);
        assert(nodes_view(kids@) =~= nodes_view(n.children@));
    }
    ParseNode { rule: n.rule, span: n.span.duplicate(), children: kids }
}

impl Clone for ParseNode {
    /// A clone is structurally equal to the original.
    fn clone(&self) -> (r: ParseNode)
        ensures
            r@ == self@,
    {
        clone_node(self)
    }
}

/// Whether the tree builder recognizes this node: the rule tag is one the
/// builder maps, and the children have the shape the grammar guarantees
/// for that rule.
pub open spec fn wf_node(n: NodeView) -> bool
    decreases n,
{
    match n.rule {
        Rule::goat => n.children.len() >= 1 && wf_node(n.children[0]),
        Rule::number => true,
        Rule::string => true,
        Rule::ident => true,
        Rule::EOI => true,
        Rule::boolean => n.span.text == "true"@ || n.span.text == "false"@,
        Rule::function => n.children.len() == 2 && n.children[0].rule == Rule::labels && wf_node(
            n.children[1],
        ),
        Rule::application => n.children.len() >= 1 && n.children[0].rule == Rule::ident && (
        n.children.len() == 1 || (n.children.len() == 2 && n.children[1].rule == Rule::arguments
            && wf_nodes(n.children[1].children))),
        Rule::conditional => (n.children.len() == 2 || n.children.len() == 3) && wf_nodes(
            n.children,
        ),
        Rule::declaration => (n.children.len() == 2 || n.children.len() == 3) && n.children[0].rule
            == Rule::ident && wf_nodes(n.children.subrange(1, n.children.len() as int)),
        Rule::expr => n.children.len() % 2 == 1 && wf_operands(n.children) && wf_operators(
            n.children,
        ),
        _ => false,
    }
}

/// Every node of the sequence is recognized by the builder.
pub open spec fn wf_nodes(s: Seq<NodeView>) -> bool
    decreases s,
{
    if s.len() == 0 {
        true
    } else {
        wf_nodes(s.drop_last()) && wf_node(s.last())
    }
}

/// The even positions of an expression node's children are recognized
/// operands.
pub open spec fn wf_operands(s: Seq<NodeView>) -> bool
    decreases s,
{
    if s.len() == 0 {
        true
    } else if s.len() == 1 {
        wf_node(s[0])
    } else {
        wf_operands(s.drop_last().drop_last()) && wf_node(s.last())
    }
}

/// The odd positions of an expression node's children are operator tokens.
pub open spec fn wf_operators(s: Seq<NodeView>) -> bool {
    forall|i: int| 0 <= i < s.len() && i % 2 == 1 ==> is_op(#[trigger] s[i].rule)
}

/// Whether a rule tags a binary-operator token.
pub open spec fn is_op(r: Rule) -> bool {
    prec(r) >= 1
}

/// The precedence group of an operator rule: comparisons bind loosest,
/// multiplication and division tightest; every group is left-associative.
pub open spec fn prec(r: Rule) -> int {
    match r {
        Rule::lt => 1,
        Rule::lte => 1,
        Rule::gt => 1,
        Rule::gte => 1,
        Rule::plus => 2,
        Rule::minus => 2,
        Rule::multiply => 3,
        Rule::divide => 3,
        _ => 0,
    }
}

/// Element-by-element reading of [`wf_nodes`].
pub proof fn lemma_wf_nodes(s: Seq<NodeView>)
    requires
        wf_nodes(s),
    ensures
        forall|i: int| 0 <= i < s.len() ==> wf_node(#[trigger] s[i]),
    decreases s,
{
    if s.len() > 0 {
        lemma_wf_nodes(s.drop_last());
        assert forall|i: int| 0 <= i < s.len() implies wf_node(#[trigger] s[i]) by {
            if i < s.len() - 1 {
                assert(s.drop_last()[i] == s[i]);
            }
        }
    }
}

/// Element-by-element reading of [`wf_operands`]: every even position is a
/// recognized operand.
pub proof fn lemma_wf_operands(s: Seq<NodeView>)
    requires
        wf_operands(s),
        s.len() % 2 == 1,
    ensures
        forall|i: int| 0 <= i < s.len() && i % 2 == 0 ==> wf_node(#[trigger] s[i]),
    decreases s,
{
    if s.len() >= 2 {
        lemma_wf_operands(s.drop_last().drop_last());
        assert forall|i: int| 0 <= i < s.len() && i % 2 == 0 implies wf_node(#[trigger] s[i]) by {
            if i < s.len() - 2 {
                assert(s.drop_last().drop_last()[i] == s[i]);
            } else if i == s.len() - 1 {
                assert(s.last() == s[i]);
            }
        }
    }
}

/// Building blocks of [`wf_nodes`] from its parts.
pub proof fn lemma_wf_nodes_intro(s: Seq<NodeView>)
    requires
        forall|i: int| 0 <= i < s.len() ==> wf_node(#[trigger] s[i]),
    ensures
        wf_nodes(s),
    decreases s,
{
    if s.len() > 0 {
        assert forall|i: int| 0 <= i < s.drop_last().len() implies wf_node(
            #[trigger] s.drop_last()[i],
        ) by {
            assert(s.drop_last()[i] == s[i]);
        }
        lemma_wf_nodes_intro(s.drop_last());
    }
}

} // verus!
