//! The tree builder: converts one concrete parse node into one typed
//! abstract syntax tree node, recursively.
//!
//! Expression nodes are resolved by precedence climbing: operators are
//! partitioned into ascending-precedence groups, each left-associative, so
//! a run of same-precedence operators builds a left-deep tree and a
//! strictly-higher-precedence run builds a right-nested subtree. The
//! mathematical model states the same tree directly: the root of an
//! operator run is its last operator of minimal precedence.

use vstd::prelude::*;

use crate::ast::Ast;
use crate::ast::AstView;
use crate::ast::Bool;
use crate::ast::IdentView;
use crate::ast::Identifier;
use crate::ast::Label;
use crate::ast::LabelView;
use crate::ast::asts_view;
use crate::ast::labels_view;
use crate::ast::lemma_asts_view;
use crate::parse_tree::ParseNode;
use crate::parse_tree::NodeView;
use crate::parse_tree::Rule;
use crate::parse_tree::lemma_nodes_view;
use crate::parse_tree::lemma_wf_nodes;
use crate::parse_tree::lemma_wf_operands;
use crate::parse_tree::prec;
use crate::parse_tree::wf_node;
use crate::parse_tree::wf_operators;
use crate::span::SpanView;

verus! {

/// The identifier built from a name occurrence: the internal name starts
/// out as the literal source text.
pub open spec fn ident_of(s: SpanView) -> IdentView {
    IdentView { name: s, internal: s.text }
}

/// The tree node built for one operator token over two operand trees.
pub open spec fn op_node(r: Rule, lhs: AstView, rhs: AstView) -> AstView {
    match r {
        Rule::plus => AstView::Plus(Box::new(lhs), Box::new(rhs)),
        Rule::minus => AstView::Minus(Box::new(lhs), Box::new(rhs)),
        Rule::multiply => AstView::Mult(Box::new(lhs), Box::new(rhs)),
        Rule::divide => AstView::Div(Box::new(lhs), Box::new(rhs)),
        Rule::lte => AstView::Lte(Box::new(lhs), Box::new(rhs)),
        Rule::gte => AstView::Gte(Box::new(lhs), Box::new(rhs)),
        Rule::lt => AstView::Lt(Box::new(lhs), Box::new(rhs)),
        Rule::gt => AstView::Gt(Box::new(lhs), Box::new(rhs)),
        _ => AstView::Empty,
    }
}

/// The index of the last operator of minimal precedence in a run of
/// `(operator, operand)` pairs. In a left-associative grammar that
/// operator is applied last, so it is the root of the run's tree.
pub open spec fn last_min_idx(s: Seq<(Rule, AstView)>) -> int
    decreases s,
{
    if s.len() <= 1 {
        0
    } else {
        let j = last_min_idx(s.drop_last());
        if prec(s.last().0) <= prec(s[j].0) {
            s.len() - 1
        } else {
            j
        }
    }
}

/// The index of the last minimal operator is in bounds, is minimal, and is
/// the last position where the minimum is taken.
pub proof fn lemma_last_min_props(s: Seq<(Rule, AstView)>)
    requires
        s.len() >= 1,
    ensures
        0 <= last_min_idx(s) < s.len(),
        forall|m: int|
            0 <= m < s.len() ==> prec(#[trigger] s[m].0) >= prec(s[last_min_idx(s)].0),
        forall|m: int|
            last_min_idx(s) < m < s.len() ==> prec(#[trigger] s[m].0) > prec(
                s[last_min_idx(s)].0,
            ),
    decreases s,
{
    if s.len() > 1 {
        lemma_last_min_props(s.drop_last());
        assert(forall|m: int|
            0 <= m < s.len() - 1 ==> #[trigger] s[m] == s.drop_last()[m]);
    }
}

/// The conditions that pin the last minimal operator: everything before
/// `k` is at least as tight, everything after is strictly tighter.
pub proof fn lemma_last_min_is(s: Seq<(Rule, AstView)>, k: int)
    requires
        0 <= k < s.len(),
        forall|m: int| 0 <= m < k ==> prec(#[trigger] s[m].0) >= prec(s[k].0),
        forall|m: int| k < m < s.len() ==> prec(#[trigger] s[m].0) > prec(s[k].0),
    ensures
        last_min_idx(s) == k,
    decreases s,
{
    if s.len() > 1 {
        assert(forall|m: int|
            0 <= m < s.len() - 1 ==> #[trigger] s.drop_last()[m] == s[m]);
        if k == s.len() - 1 {
            lemma_last_min_props(s.drop_last());
        } else {
            lemma_last_min_is(s.drop_last(), k);
        }
    }
}

/// The expression tree for one operand followed by a run of
/// `(operator, operand)` pairs: the last operator of minimal precedence is
/// the root, and each side is resolved the same way.
pub open spec fn spec_expr_tree(first: AstView, rest: Seq<(Rule, AstView)>) -> AstView
    decreases rest.len(),
{
    if rest.len() == 0 {
        first
    } else {
        let k = last_min_idx(rest);
        if 0 <= k < rest.len() {
            op_node(
                rest[k].0,
                spec_expr_tree(first, rest.subrange(0, k)),
                spec_expr_tree(rest[k].1, rest.subrange(k + 1, rest.len() as int)),
            )
        } else {
            first
        }
    }
}

/// Splitting rule of [`spec_expr_tree`]: an operator that is no looser
/// than everything before it and strictly looser than everything after it
/// is the root of the run.
pub proof fn lemma_expr_split(first: AstView, s: Seq<(Rule, AstView)>, k: int)
    requires
        0 <= k < s.len(),
        forall|m: int| 0 <= m < k ==> prec(#[trigger] s[m].0) >= prec(s[k].0),
        forall|m: int| k < m < s.len() ==> prec(#[trigger] s[m].0) > prec(s[k].0),
    ensures
        spec_expr_tree(first, s) == op_node(
            s[k].0,
            spec_expr_tree(first, s.subrange(0, k)),
            spec_expr_tree(s[k].1, s.subrange(k + 1, s.len() as int)),
        ),
{
    lemma_last_min_is(s, k);
}

/// Where a precedence-climbing scan started at `i` with minimum
/// precedence `min` stops: the first position whose operator binds looser
/// than `min`, or the end of the run.
pub open spec fn scan_end(s: Seq<(Rule, AstView)>, i: int, min: int) -> int
    decreases s.len() - i,
    when 0 <= i <= s.len()
{
    if i < s.len() && prec(s[i].0) >= min {
        scan_end(s, i + 1, min)
    } else {
        i
    }
}

/// The scan stops inside the run, every operator it passed binds at least
/// as tight as the minimum, and the stopping operator, if any, binds
/// looser.
pub proof fn lemma_scan_end_props(s: Seq<(Rule, AstView)>, i: int, min: int)
    requires
        0 <= i <= s.len(),
    ensures
        i <= scan_end(s, i, min) <= s.len(),
        forall|m: int| i <= m < scan_end(s, i, min) ==> prec(#[trigger] s[m].0) >= min,
        scan_end(s, i, min) < s.len() ==> prec(s[scan_end(s, i, min)].0) < min,
    decreases s.len() - i,
{
    if i < s.len() && prec(s[i].0) >= min {
        lemma_scan_end_props(s, i + 1, min);
    }
}

/// A scan passes without stopping over any segment whose operators all
/// bind at least as tight as the minimum.
pub proof fn lemma_scan_end_through(s: Seq<(Rule, AstView)>, a: int, b: int, min: int)
    requires
        0 <= a <= b <= s.len(),
        forall|m: int| a <= m < b ==> prec(#[trigger] s[m].0) >= min,
    ensures
        scan_end(s, a, min) == scan_end(s, b, min),
    decreases b - a,
{
    if a < b {
        lemma_scan_end_through(s, a + 1, b, min);
    }
}

/// The tree built for one parse node. Meaningful for nodes that satisfy
/// [`wf_node`]; everything else maps to the empty tree.
pub open spec fn spec_build(n: NodeView) -> AstView
    decreases n,
{
    match n.rule {
        Rule::goat => if n.children.len() >= 1 {
            AstView::Program(Box::new(spec_build(n.children[0])))
        } else {
            AstView::Empty
        },
        Rule::string => AstView::Str(n.span),
        Rule::number => AstView::Number(n.span),
        Rule::ident => AstView::Identifier(ident_of(n.span)),
        Rule::boolean => AstView::Bool(
            if n.span.text == "true"@ {
                Bool::True
            } else {
                Bool::False
            },
        ),
        Rule::function => if n.children.len() == 2 {
            AstView::Function {
                labels: spec_labels(n.children[0].children),
                body: Box::new(spec_build(n.children[1])),
            }
        } else {
            AstView::Empty
        },
        Rule::application => if n.children.len() >= 1 {
            AstView::Application {
                identifier: ident_of(n.children[0].span),
                arguments: if n.children.len() == 1 {
                    Seq::empty()
                } else {
                    spec_build_seq(n.children[1].children)
                },
            }
        } else {
            AstView::Empty
        },
        Rule::conditional => if n.children.len() >= 2 {
            AstView::Conditional {
                condition: Box::new(spec_build(n.children[0])),
                true_branch: Box::new(spec_build(n.children[1])),
                else_branch: if n.children.len() == 3 {
                    Option::Some(Box::new(spec_build(n.children[2])))
                } else {
                    Option::None
                },
            }
        } else {
            AstView::Empty
        },
        Rule::declaration => if n.children.len() >= 2 {
            AstView::Declaration {
                identifier: ident_of(n.children[0].span),
                body: Box::new(spec_build(n.children[1])),
                rest: if n.children.len() == 3 {
                    Option::Some(Box::new(spec_build(n.children[2])))
                } else {
                    Option::None
                },
            }
        } else {
            AstView::Empty
        },
        Rule::expr => if n.children.len() >= 1 {
            spec_expr_tree(spec_build(n.children[0]), expr_pairs(n.children))
        } else {
            AstView::Empty
        },
        Rule::EOI => AstView::Empty,
        _ => AstView::Empty,
    }
}

/// The trees built for a sequence of parse nodes, element by element.
pub open spec fn spec_build_seq(s: Seq<NodeView>) -> Seq<AstView>
    decreases s,
{
    if s.len() == 0 {
        Seq::empty()
    } else {
        spec_build_seq(s.drop_last()).push(spec_build(s.last()))
    }
}

/// The labels built from the children of a label-list node.
pub open spec fn spec_labels(s: Seq<NodeView>) -> Seq<LabelView> {
    Seq::new(s.len(), |i: int| (LabelView { identifier: ident_of(s[i].span) }))
}

/// The `(operator, operand tree)` pairs of an expression node's children:
/// positions 1, 3, 5, ... hold the operator tokens, each followed by its
/// operand.
pub open spec fn expr_pairs(ch: Seq<NodeView>) -> Seq<(Rule, AstView)>
    decreases ch,
{
    if ch.len() < 3 {
        Seq::empty()
    } else {
        expr_pairs(ch.drop_last().drop_last()).push(
            (ch[ch.len() - 2].rule, spec_build(ch.last())),
        )
    }
}

/// Element-by-element reading of [`spec_build_seq`].
pub proof fn lemma_spec_build_seq(s: Seq<NodeView>)
    ensures
        spec_build_seq(s).len() == s.len(),
        forall|i: int| 0 <= i < s.len() ==> spec_build_seq(s)[i] == spec_build(s[i]),
    decreases s,
{
    if s.len() > 0 {
        lemma_spec_build_seq(s.drop_last());
    }
}

/// Element-by-element reading of [`expr_pairs`] for a well-shaped run of
/// children.
pub proof fn lemma_expr_pairs(ch: Seq<NodeView>)
    requires
        ch.len() % 2 == 1,
    ensures
        expr_pairs(ch).len() == (ch.len() - 1) / 2,
        forall|q: int|
            0 <= q < expr_pairs(ch).len() ==> expr_pairs(ch)[q] == (
                ch[2 * q + 1].rule,
                spec_build(ch[2 * q + 2]),
            ),
    decreases ch,
{
    if ch.len() >= 3 {
        lemma_expr_pairs(ch.drop_last().drop_last());
        assert(forall|m: int|
            0 <= m < ch.len() - 2 ==> #[trigger] ch.drop_last().drop_last()[m] == ch[m]);
    }
}

/// The view of a run of already-built `(operator, operand)` pairs.
pub open spec fn pairs_view(s: Seq<(Rule, Ast)>) -> Seq<(Rule, AstView)> {
    Seq::new(s.len(), |i: int| (s[i].0, s[i].1@))
}

/// The precedence group of an operator token.
fn op_prec(r: Rule) -> (p: i32)
    ensures
        p as int == prec(r),
{
    match r {
        Rule::lt => 1,
        Rule::lte => 1,
        Rule::gt => 1,
        Rule::gte => 1,
        Rule::plus => 2,
        Rule::minus => 2,
        Rule::multiply => 3,
        Rule::divide => 3,
        _ => 0,
    }
}

/// Folds two operand trees into the binary node of one operator token.
fn mk_op(r: Rule, lhs: Ast, rhs: Ast) -> (t: Ast)
    ensures
        t@ == op_node(r, lhs@, rhs@),
{
    match r {
        Rule::plus => Ast::Plus(Box::new(lhs), Box::new(rhs)),
        Rule::minus => Ast::Minus(Box::new(lhs), Box::new(rhs)),
        Rule::multiply => Ast::Mult(Box::new(lhs), Box::new(rhs)),
        Rule::divide => Ast::Div(Box::new(lhs), Box::new(rhs)),
        Rule::lte => Ast::Lte(Box::new(lhs), Box::new(rhs)),
        Rule::gte => Ast::Gte(Box::new(lhs), Box::new(rhs)),
        Rule::lt => Ast::Lt(Box::new(lhs), Box::new(rhs)),
        Rule::gt => Ast::Gt(Box::new(lhs), Box::new(rhs)),
        _ => Ast::Empty,
    }
}

/// Precedence climbing over a run of pairs, starting at `start` with
/// minimum precedence `min`: while the next operator's group binds at
/// least as tight as the minimum, its right-hand operand is resolved
/// under a minimum one level higher, and the running left operand is
/// folded with it — left-deep for same-precedence runs, right-nested for
/// strictly tighter runs.
#[verifier::loop_isolation(false)]
fn climb(pairs: &Vec<(Rule, Ast)>, lhs: Ast, start: usize, min: i32) -> (res: (Ast, usize))
    requires
        start <= pairs@.len(),
    ensures
        res.1 as int == scan_end(pairs_view(pairs@), start as int, min as int),
        res.0@ == spec_expr_tree(
            lhs@,
            pairs_view(pairs@).subrange(start as int, res.1 as int),
        ),
    decreases pairs@.len() - start,
{
    let ghost s = pairs_view(pairs@);
    let ghost lhs0 = lhs@;
    let mut cur = lhs;
    let mut k: usize = start;
    proof {
        assert(s.subrange(start as int, start as int) =~= Seq::<(Rule, AstView)>::empty());
        lemma_scan_end_props(s, start as int, min as int);
    }
    while k < pairs.len() && op_prec(pairs[k].0) >= min
        invariant
            start <= k <= pairs@.len(),
            cur@ == spec_expr_tree(lhs0, s.subrange(start as int, k as int)),
            scan_end(s, start as int, min as int) == scan_end(s, k as int, min as int),
            forall|m: int|
                start as int <= m < k as int ==> prec(#[trigger] s[m].0) >= min as int,
            forall|m: int|
                start as int <= m < k as int && (k as int) < s.len() ==> prec(
                    #[trigger] s[m].0,
                ) >= prec(s[k as int].0),
        decreases pairs@.len() - k,
    {
        let ghost kk = k as int;
        let ghost cur0 = cur@;
        let op: Rule = pairs[k].0;
        let rhs0: Ast = pairs[k].1.clone();
        let p: i32 = op_prec(op);
        proof {
            assert(s[kk] == (pairs@[kk].0, pairs@[kk].1@));
            assert(rhs0@ == s[kk].1);
            assert(p as int == prec(s[kk].0));
            assert(0 <= p <= 3);
        }
        let sub = climb(pairs, rhs0, k + 1, p + 1);
        let rhs = sub.0;
        let j = sub.1;
        let ghost jj = j as int;
        proof {
            lemma_scan_end_props(s, kk + 1, p as int + 1);
            assert(jj == scan_end(s, kk + 1, p as int + 1));
            // every operator strictly inside the right-hand run binds
            // tighter than the one just consumed
            assert(forall|m: int| kk + 1 <= m < jj ==> prec(#[trigger] s[m].0) > p as int);
            // the scan from the start agrees with the scan from the new
            // position
            assert(scan_end(s, kk, min as int) == scan_end(s, kk + 1, min as int));
            lemma_scan_end_through(s, kk + 1, jj, min as int);
            // split the consumed segment at the operator just consumed
            let seg = s.subrange(start as int, jj);
            let d = kk - start as int;
            assert(seg.len() == jj - start as int);
            assert(forall|m: int| 0 <= m < seg.len() ==> #[trigger] seg[m] == s[start as int + m]);
            assert(forall|m: int| 0 <= m < d ==> prec(#[trigger] seg[m].0) >= prec(seg[d].0));
            assert(forall|m: int| d < m < seg.len() ==> prec(#[trigger] seg[m].0) > prec(seg[d].0));
            lemma_expr_split(lhs0, seg, d);
            assert(seg.subrange(0, d) =~= s.subrange(start as int, kk));
            assert(seg.subrange(d + 1, seg.len() as int) =~= s.subrange(kk + 1, jj));
            assert(rhs@ == spec_expr_tree(s[kk].1, s.subrange(kk + 1, jj)));
        }
        cur = mk_op(op, cur, rhs);
        k = j;
        proof {
            assert(cur@ == spec_expr_tree(lhs0, s.subrange(start as int, k as int)));
            assert forall|m: int|
                start as int <= m < k as int && (k as int) < s.len() implies prec(
                #[trigger] s[m].0,
            ) >= prec(s[k as int].0) by {
                assert(prec(s[k as int].0) < p as int + 1);
                if m < kk {
                } else if m == kk {
                } else {
                    assert(prec(s[m].0) > p as int);
                }
            }
        }
    }
    proof {
        assert(scan_end(s, k as int, min as int) == k as int);
    }
    (cur, k)
}

/// Converts one concrete parse node into one tree node, recursively. The
/// rule tag must be one the builder recognizes; anything else would be a
/// defect between grammar and builder, not a recoverable error, and is
/// ruled out by the caller's obligation.
#[verifier::loop_isolation(false)]
#[verifier::rlimit(30)]
fn child(node: &ParseNode) -> (r: Ast)
    requires
        wf_node(node@),
    ensures
        r@ == spec_build(node@),
    decreases *node,
{
    proof {
        lemma_nodes_view(node.children@);
    }
    match node.rule {
        Rule::goat => {
            let c = child(&node.children[0]);
            Ast::Program(Box::new(c))
        },
        Rule::string => Ast::Str(node.span.duplicate()),
        Rule::number => Ast::Number(node.span.duplicate()),
        Rule::ident => Ast::Identifier(Identifier::new(node.span.duplicate())),
        Rule::boolean => {
            if node.span.text_is("true") {
                Ast::Bool(Bool::True)
            } else {
                Ast::Bool(Bool::False)
            }
        },
        Rule::function => {
            let labs = &node.children[0];
            proof {
                lemma_nodes_view(labs.children@);
            }
            let mut ls: Vec<Label> = Vec::new();
            let mut m: usize = 0;
            while m < labs.children.len()
                invariant
                    m <= labs.children.len(),
                    ls@.len() == m as int,
                    forall|q: int|
                        0 <= q < m as int ==> ls@[q]@ == spec_labels(node@.children[0].children)[q],
                decreases labs.children.len() - m,
            {
                ls.push(Label::new(Identifier::new(labs.children[m].span.duplicate())));
                m = m + 1;
            }
            proof {
                assert(labels_view(ls@) =~= spec_labels(node@.children[0].children));
            }
            proof {
                assert(node@.children[1] == node.children@[1]@);
            }
            let b = child(&node.children[1]);
            Ast::Function { labels: ls, body: Box::new(b) }
        },
        Rule::application => {
            let ident = Identifier::new(node.children[0].span.duplicate());
            let mut args: Vec<Ast> = Vec::new();
            if node.children.len() >= 2 {
                let argsn = &node.children[1];
                proof {
                    lemma_nodes_view(argsn.children@);
                    crate::parse_tree::lemma_wf_nodes(node@.children[1].children);
                    lemma_spec_build_seq(node@.children[1].children);
                }
                let mut m: usize = 0;
                while m < argsn.children.len()
                    invariant
                        m <= argsn.children.len(),
                        args@.len() == m as int,
                        forall|q: int|
                            0 <= q < m as int ==> args@[q]@ == spec_build_seq(
                                node@.children[1].children,
                            )[q],
                    decreases argsn.children.len() - m,
                {
                    proof {
                        assert(node@.children[1] == node.children@[1]@);
                        assert(node@.children[1].children[m as int] == argsn.children@[m as int]@);
                        assert(wf_node(node@.children[1].children[m as int]));
                    }
                    args.push(child(&argsn.children[m]));
                    m = m + 1;
                }
                proof {
                    lemma_asts_view(args@);
                    assert(asts_view(args@) =~= spec_build_seq(node@.children[1].children));
                }
            } else {
                proof {
                    assert(asts_view(args@) =~= Seq::<AstView>::empty());
                }
            }
            Ast::Application { identifier: ident, arguments: args }
        },
        Rule::conditional => {
            proof {
                lemma_wf_nodes(node@.children);
                assert(node@.children[0] == node.children@[0]@);
                assert(node@.children[1] == node.children@[1]@);
                if node@.children.len() == 3 {
                    assert(node@.children[2] == node.children@[2]@);
                }
                assert(wf_node(node@.children[0]));
                assert(wf_node(node@.children[1]));
            }
            let c = child(&node.children[0]);
            let t = child(&node.children[1]);
            let e: Option<Box<Ast>> = if node.children.len() == 3 {
                Option::Some(Box::new(child(&node.children[2])))
            } else {
                Option::None
            };
            Ast::Conditional { condition: Box::new(c), true_branch: Box::new(t), else_branch: e }
        },
        Rule::declaration => {
            proof {
                lemma_wf_nodes(node@.children.subrange(1, node@.children.len() as int));
                assert(forall|q: int|
                    0 <= q < node@.children.len() - 1 ==> #[trigger] node@.children.subrange(
                        1,
                        node@.children.len() as int,
                    )[q] == node@.children[q + 1]);
            }
            proof {
                let sub = node@.children.subrange(1, node@.children.len() as int);
                assert(sub[0] == node@.children[1]);
                assert(wf_node(node@.children[1]));
                assert(node@.children[1] == node.children@[1]@);
                if node@.children.len() == 3 {
                    assert(sub[1] == node@.children[2]);
                    assert(wf_node(node@.children[2]));
                    assert(node@.children[2] == node.children@[2]@);
                }
            }
            let ident = Identifier::new(node.children[0].span.duplicate());
            let b = child(&node.children[1]);
            let rest: Option<Box<Ast>> = if node.children.len() == 3 {
                Option::Some(Box::new(child(&node.children[2])))
            } else {
                Option::None
            };
            Ast::Declaration { identifier: ident, body: Box::new(b), rest }
        },
        Rule::expr => {
            proof {
                lemma_wf_operands(node@.children);
                lemma_expr_pairs(node@.children);
            }
            let first = child(&node.children[0]);
            let mut prs: Vec<(Rule, Ast)> = Vec::new();
            let mut m: usize = 1;
            while m < node.children.len()
                invariant
                    m % 2 == 1,
                    1 <= m <= node.children.len() + 1,
                    node.children.len() % 2 == 1 ==> m <= node.children.len(),
                    prs@.len() == (m as int - 1) / 2,
                    forall|q: int|
                        0 <= q < prs@.len() ==> #[trigger] prs@[q].0 == node@.children[2 * q
                            + 1].rule && prs@[q].1@ == spec_build(node@.children[2 * q + 2]),
                decreases node.children.len() - m,
            {
                proof {
                    assert(m as int != node@.children.len() - 1);
                }
                let op = node.children[m].rule;
                proof {
                    assert(node@.children[m as int + 1] == node.children@[m as int + 1]@);
                    assert(wf_node(node@.children[m as int + 1]));
                }
                let operand = child(&node.children[m + 1]);
                prs.push((op, operand));
                m = m + 2;
            }
            proof {
                assert(pairs_view(prs@) =~= expr_pairs(node@.children));
            }
            let res = climb(&prs, first, 0, 1);
            proof {
                let pv = pairs_view(prs@);
                assert(forall|q: int| 0 <= q < pv.len() ==> prec(#[trigger] pv[q].0) >= 1) by {
                    assert(wf_operators(node@.children));
                }
                lemma_scan_end_through(pv, 0, pv.len() as int, 1);
                assert(scan_end(pv, pv.len() as int, 1) == pv.len() as int);
                assert(pv.subrange(0, pv.len() as int) =~= pv);
            }
            res.0
        },
        Rule::EOI => Ast::Empty,
        _ => Ast::Empty,
    }
}

impl Ast {
    /// Produces exactly one tree from one recognized parse node,
    /// recursively, resolving expression runs by precedence climbing.
    pub fn new(node: &ParseNode) -> (r: Ast)
        requires
            wf_node(node@),
        ensures
            r@ == spec_build(node@),
    {
        child(node)
    }
}

} // verus!
