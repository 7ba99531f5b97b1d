//! The grammar parser: turns source text into a concrete syntax tree of
//! rule-tagged nodes with spans.
//!
//! Offsets are character offsets into the input. Whitespace between
//! tokens is consumed inside the innermost rule that reads past it, so an
//! expression's span includes whitespace scanned while looking for a
//! further operator. Every node handed out satisfies the shape the tree
//! builder relies on; malformed input yields no tree and never a crash.

use vstd::prelude::*;

use crate::ast::AstView;
use crate::builder::spec_build;
use crate::span::string_from_range;
use crate::parse_tree::NodeView;
use crate::parse_tree::ParseNode;
use crate::parse_tree::Rule;
use crate::parse_tree::is_op;
use crate::parse_tree::lemma_nodes_view;
use crate::parse_tree::nodes_view;
use crate::parse_tree::wf_node;
use crate::parse_tree::wf_nodes;
use crate::parse_tree::wf_operands;
use crate::parse_tree::wf_operators;
use crate::span::Span;

verus! {

/// Whether a character is an ASCII letter.
pub open spec fn is_alpha(c: char) -> bool {
    (65 <= c as u32 && c as u32 <= 90) || (97 <= c as u32 && c as u32 <= 122)
}

/// Whether a character is an ASCII digit.
pub open spec fn is_digit(c: char) -> bool {
    48 <= c as u32 && c as u32 <= 57
}

/// Whether a character can continue an identifier word.
pub open spec fn is_word(c: char) -> bool {
    is_alpha(c) || is_digit(c)
}

/// Whether a character is blank.
pub open spec fn is_space(c: char) -> bool {
    c == ' ' || c == '\t' || c == '\n' || c == '\r'
}

/// Whether a character is an ASCII letter.
fn alpha(c: char) -> (r: bool)
    ensures
        r == is_alpha(c),
{
    let u = c as u32;
    (65 <= u && u <= 90) || (97 <= u && u <= 122)
}

/// Whether a character is an ASCII digit.
fn digit(c: char) -> (r: bool)
    ensures
        r == is_digit(c),
{
    let u = c as u32;
    48 <= u && u <= 57
}

/// Whether a character can continue an identifier word.
fn word_char(c: char) -> (r: bool)
    ensures
        r == is_word(c),
{
    alpha(c) || digit(c)
}

/// Whether a character is blank.
fn space(c: char) -> (r: bool)
    ensures
        r == is_space(c),
{
    c == ' ' || c == '\t' || c == '\n' || c == '\r'
}

/// The characters of the input, one element per character.
fn chars_of(input: &str) -> (r: Vec<char>)
    ensures
        r@ == input@,
{
    let n = input.unicode_len();
    let mut out: Vec<char> = Vec::new();
    let mut i: usize = 0;
    while i < n
        invariant
            i <= n,
            n == input@.len(),
            out@ =~= input@.subrange(0, i as int),
        decreases n - i,
    {
        out.push(input.get_char(i));
        i = i + 1;
        proof {
            assert(out@ =~= input@.subrange(0, i as int));
        }
    }
    proof {
        assert(input@.subrange(0, n as int) =~= input@);
    }
    out
}

/// The first position at or past `pos` holding a non-blank character.
fn skip_ws(src: &Vec<char>, pos: usize) -> (r: usize)
    requires
        pos <= src@.len(),
    ensures
        pos <= r <= src@.len(),
    decreases src@.len() - pos,
{
    if pos < src.len() && space(src[pos]) {
        skip_ws(src, pos + 1)
    } else {
        pos
    }
}

/// The end of the identifier word starting at `pos`.
fn word_end(src: &Vec<char>, pos: usize) -> (r: usize)
    requires
        pos <= src@.len(),
    ensures
        pos <= r <= src@.len(),
        pos < src@.len() && is_word(src@[pos as int]) ==> r >= pos + 1,
    decreases src@.len() - pos,
{
    if pos < src.len() && word_char(src[pos]) {
        word_end(src, pos + 1)
    } else {
        pos
    }
}

/// Whether the characters `[pos, end)` read exactly `kw`.
fn range_is(src: &Vec<char>, pos: usize, end: usize, kw: &str) -> (r: bool)
    requires
        pos <= end <= src@.len(),
    ensures
        r == (src@.subrange(pos as int, end as int) == kw@),
{
    let n = kw.unicode_len();
    if n != end - pos {
        proof {
            assert(src@.subrange(pos as int, end as int).len() != kw@.len());
        }
        return false;
    }
    let mut i: usize = 0;
    while i < n
        invariant
            i <= n,
            n == kw@.len(),
            n == end - pos,
            pos <= end <= src@.len(),
            forall|q: int| 0 <= q < i as int ==> src@[pos + q] == kw@[q],
        decreases n - i,
    {
        if src[pos + i] != kw.get_char(i) {
            proof {
                assert(src@.subrange(pos as int, end as int)[i as int] != kw@[i as int]);
            }
            return false;
        }
        i = i + 1;
    }
    proof {
        assert(src@.subrange(pos as int, end as int) =~= kw@);
    }
    true
}

/// The span of the characters `[start, end)`.
fn make_span(src: &Vec<char>, start: usize, end: usize) -> (r: Span)
    requires
        start <= end <= src@.len(),
    ensures
        r@.start == start as int,
        r@.end == end as int,
        r@.text == src@.subrange(start as int, end as int),
{
    let text = string_from_range(src, start, end);
    Span::new(start, end, text)
}

/// A childless node of the given rule over the characters `[start, end)`.
fn leaf(src: &Vec<char>, rule: Rule, start: usize, end: usize) -> (r: ParseNode)
    requires
        start <= end <= src@.len(),
    ensures
        r@.rule == rule,
        r@.span.start == start as int,
        r@.span.end == end as int,
        r@.span.text == src@.subrange(start as int, end as int),
        r@.children == Seq::<NodeView>::empty(),
{
    let span = make_span(src, start, end);
    let n = ParseNode::new(rule, span, Vec::new());
    proof {
        assert(n@.children =~= Seq::<NodeView>::empty());
    }
    n
}

/// The end of the digit run starting at `pos`.
fn digits_end(src: &Vec<char>, pos: usize) -> (r: usize)
    requires
        pos <= src@.len(),
    ensures
        pos <= r <= src@.len(),
        pos < src@.len() && is_digit(src@[pos as int]) ==> r >= pos + 1,
    decreases src@.len() - pos,
{
    if pos < src.len() && digit(src[pos]) {
        digits_end(src, pos + 1)
    } else {
        pos
    }
}

/// The number literal starting at `pos`: a digit run, optionally followed
/// by a point and a second digit run.
fn parse_number(src: &Vec<char>, pos: usize) -> (r: (ParseNode, usize))
    requires
        pos < src@.len(),
        is_digit(src@[pos as int]),
    ensures
        wf_node(r.0@),
        r.0@.rule == Rule::number,
        pos < r.1 <= src@.len(),
{
    let q = digits_end(src, pos);
    let end: usize = if q < src.len() && src[q] == '.' && q + 1 < src.len() && digit(
        src[q + 1],
    ) {
        digits_end(src, q + 1)
    } else {
        q
    };
    (leaf(src, Rule::number, pos, end), end)
}

/// The string literal starting at the quote at `pos`: everything up to
/// the next quote, both quotes included in the span.
fn parse_string(src: &Vec<char>, pos: usize) -> (r: Option<(ParseNode, usize)>)
    requires
        pos < src@.len(),
    ensures
        match r {
            Option::Some(v) => wf_node(v.0@) && v.0@.rule == Rule::string && pos < v.1
                <= src@.len(),
            Option::None => true,
        },
{
    let n = src.len();
    let mut q: usize = pos + 1;
    while q < src.len() && src[q] != '"'
        invariant
            pos + 1 <= q <= src@.len(),
        decreases src@.len() - q,
    {
        q = q + 1;
    }
    if q < src.len() {
        Option::Some((leaf(src, Rule::string, pos, q + 1), q + 1))
    } else {
        Option::None
    }
}

/// The operator token standing at `pos`, if any, with its length.
fn op_at(src: &Vec<char>, pos: usize) -> (r: Option<(Rule, usize)>)
    requires
        pos <= src@.len(),
    ensures
        match r {
            Option::Some(v) => is_op(v.0) && 1 <= v.1 && pos + v.1 <= src@.len(),
            Option::None => true,
        },
{
    if pos >= src.len() {
        return Option::None;
    }
    let c = src[pos];
    if c == '<' {
        if pos + 1 < src.len() && src[pos + 1] == '=' {
            Option::Some((Rule::lte, 2))
        } else {
            Option::Some((Rule::lt, 1))
        }
    } else if c == '>' {
        if pos + 1 < src.len() && src[pos + 1] == '=' {
            Option::Some((Rule::gte, 2))
        } else {
            Option::Some((Rule::gt, 1))
        }
    } else if c == '+' {
        Option::Some((Rule::plus, 1))
    } else if c == '-' {
        Option::Some((Rule::minus, 1))
    } else if c == '*' {
        Option::Some((Rule::multiply, 1))
    } else if c == '/' {
        Option::Some((Rule::divide, 1))
    } else {
        Option::None
    }
}

/// An expression: an operand, then, as long as an operator follows, the
/// operator token and its right-hand operand. The node's span runs to the
/// position reached after the blanks that were scanned past while looking
/// for one more operator.
#[verifier::loop_isolation(false)]
fn parse_expr(src: &Vec<char>, pos: usize) -> (r: Option<(ParseNode, usize)>)
    requires
        pos <= src@.len(),
    ensures
        match r {
            Option::Some(v) => wf_node(v.0@) && v.0@.rule == Rule::expr && pos < v.1
                <= src@.len(),
            Option::None => true,
        },
    decreases src@.len() - pos, 3int,
{
    let first = match parse_operand(src, pos) {
        Option::None => {
            return Option::None;
        },
        Option::Some(v) => v,
    };
    let mut kids: Vec<ParseNode> = Vec::new();
    kids.push(first.0);
    let mut cur: usize = skip_ws(src, first.1);
    proof {
        lemma_nodes_view(kids@);
    }
    loop
        invariant
            pos < cur <= src@.len(),
            kids@.len() % 2 == 1,
            wf_operands(nodes_view(kids@)),
            wf_operators(nodes_view(kids@)),
        decreases src@.len() - cur,
    {
        let op = match op_at(src, cur) {
            Option::None => {
                break ;
            },
            Option::Some(v) => v,
        };
        let n = src.len();
        let opnode = leaf(src, op.0, cur, cur + op.1);
        let after = skip_ws(src, cur + op.1);
        let operand = match parse_operand(src, after) {
            Option::None => {
                return Option::None;
            },
            Option::Some(v) => v,
        };
        let ghost kids0 = kids@;
        let ghost before = nodes_view(kids@);
        kids.push(opnode);
        kids.push(operand.0);
        cur = skip_ws(src, operand.1);
        proof {
            lemma_nodes_view(kids0);
            lemma_nodes_view(kids@);
            assert(kids@ =~= kids0.push(opnode).push(operand.0));
            let now = nodes_view(kids@);
            assert(now.len() == before.len() + 2);
            assert(now.drop_last().drop_last() =~= before);
            assert(now.last() == operand.0@);
            assert(now[now.len() - 2] == opnode@);
            assert(wf_operands(now));
            assert forall|i: int| 0 <= i < now.len() && i % 2 == 1 implies is_op(
                #[trigger] now[i].rule,
            ) by {
                if i < before.len() {
                    assert(now[i] == before[i]);
                }
            }
        }
    }
    proof {
        lemma_nodes_view(kids@);
    }
    let span = make_span(src, pos, cur);
    let node = ParseNode::new(Rule::expr, span, kids);
    Option::Some((node, cur))
}

/// One operand of an expression: a literal, an identifier, an
/// application, a conditional, a function, or a parenthesized expression
/// substituted as a single operand.
#[verifier::loop_isolation(false)]
fn parse_operand(src: &Vec<char>, pos: usize) -> (r: Option<(ParseNode, usize)>)
    requires
        pos <= src@.len(),
    ensures
        match r {
            Option::Some(v) => wf_node(v.0@) && pos < v.1 <= src@.len(),
            Option::None => true,
        },
    decreases src@.len() - pos, 2int,
{
    if pos >= src.len() {
        return Option::None;
    }
    let c = src[pos];
    if digit(c) {
        return Option::Some(parse_number(src, pos));
    }
    if c == '"' {
        return parse_string(src, pos);
    }
    if c == '(' {
        let after = skip_ws(src, pos + 1);
        let inner = match parse_expr(src, after) {
            Option::None => {
                return Option::None;
            },
            Option::Some(v) => v,
        };
        if inner.1 < src.len() && src[inner.1] == ')' {
            return Option::Some((inner.0, inner.1 + 1));
        }
        return Option::None;
    }
    if alpha(c) {
        let we = word_end(src, pos);
        if range_is(src, pos, we, "true") || range_is(src, pos, we, "false") {
            return Option::Some((leaf(src, Rule::boolean, pos, we), we));
        }
        if range_is(src, pos, we, "if") {
            return parse_conditional(src, pos, we);
        }
        if range_is(src, pos, we, "program") {
            return parse_function(src, pos, we);
        }
        if range_is(src, pos, we, "then") || range_is(src, pos, we, "else") || range_is(
            src,
            pos,
            we,
            "do",
        ) || range_is(src, pos, we, "done") {
            return Option::None;
        }
        let q = skip_ws(src, we);
        if q < src.len() && src[q] == '(' {
            return parse_application(src, pos);
        }
        return Option::Some((leaf(src, Rule::ident, pos, we), we));
    }
    Option::None
}

/// A conditional: the condition, the branch after `then`, and an optional
/// branch after `else`, closed by `done`. `we` is the position just past
/// the opening keyword.
fn parse_conditional(src: &Vec<char>, pos: usize, we: usize) -> (r: Option<(ParseNode, usize)>)
    requires
        pos < we <= src@.len(),
    ensures
        match r {
            Option::Some(v) => wf_node(v.0@) && v.0@.rule == Rule::conditional && pos < v.1
                <= src@.len(),
            Option::None => true,
        },
    decreases src@.len() - pos, 1int,
{
    let cur = skip_ws(src, we);
    let cond = match parse_expr(src, cur) {
        Option::None => {
            return Option::None;
        },
        Option::Some(v) => v,
    };
    let t1 = word_end(src, cond.1);
    if !range_is(src, cond.1, t1, "then") {
        return Option::None;
    }
    let cur2 = skip_ws(src, t1);
    let tb = match parse_expr(src, cur2) {
        Option::None => {
            return Option::None;
        },
        Option::Some(v) => v,
    };
    let t2 = word_end(src, tb.1);
    if range_is(src, tb.1, t2, "done") {
        let mut kids: Vec<ParseNode> = Vec::new();
        kids.push(cond.0);
        kids.push(tb.0);
        proof {
            lemma_nodes_view(kids@);
            crate::parse_tree::lemma_wf_nodes_intro(nodes_view(kids@));
        }
        let node = ParseNode::new(Rule::conditional, make_span(src, pos, t2), kids);
        return Option::Some((node, t2));
    }
    if !range_is(src, tb.1, t2, "else") {
        return Option::None;
    }
    let cur3 = skip_ws(src, t2);
    let eb = match parse_expr(src, cur3) {
        Option::None => {
            return Option::None;
        },
        Option::Some(v) => v,
    };
    let t3 = word_end(src, eb.1);
    if !range_is(src, eb.1, t3, "done") {
        return Option::None;
    }
    let mut kids: Vec<ParseNode> = Vec::new();
    kids.push(cond.0);
    kids.push(tb.0);
    kids.push(eb.0);
    proof {
        lemma_nodes_view(kids@);
        crate::parse_tree::lemma_wf_nodes_intro(nodes_view(kids@));
    }
    let node = ParseNode::new(Rule::conditional, make_span(src, pos, t3), kids);
    Option::Some((node, t3))
}

/// A label list: identifiers separated by commas, possibly empty. The
/// node's span runs to the position reached after the blanks scanned past
/// while looking for a comma.
#[verifier::loop_isolation(false)]
fn parse_labels(src: &Vec<char>, pos: usize) -> (r: Option<(ParseNode, usize)>)
    requires
        pos <= src@.len(),
    ensures
        match r {
            Option::Some(v) => v.0@.rule == Rule::labels && pos <= v.1 <= src@.len(),
            Option::None => true,
        },
{
    let mut kids: Vec<ParseNode> = Vec::new();
    if !(pos < src.len() && alpha(src[pos])) {
        let node = ParseNode::new(Rule::labels, make_span(src, pos, pos), kids);
        return Option::Some((node, pos));
    }
    let mut lp: usize = pos;
    let mut cur: usize = pos;
    loop
        invariant
            pos <= lp <= src@.len(),
            lp < src@.len(),
            is_alpha(src@[lp as int]),
        decreases src@.len() - lp,
    {
        let we = word_end(src, lp);
        kids.push(leaf(src, Rule::ident, lp, we));
        let q = skip_ws(src, we);
        cur = q;
        if q < src.len() && src[q] == ',' {
            let nx = skip_ws(src, q + 1);
            if !(nx < src.len() && alpha(src[nx])) {
                return Option::None;
            }
            lp = nx;
        } else {
            break ;
        }
    }
    let node = ParseNode::new(Rule::labels, make_span(src, pos, cur), kids);
    Option::Some((node, cur))
}

/// A function: the keyword, a parenthesized label list, and a body
/// between `do` and `done`. `we` is the position just past the opening
/// keyword.
fn parse_function(src: &Vec<char>, pos: usize, we: usize) -> (r: Option<(ParseNode, usize)>)
    requires
        pos < we <= src@.len(),
    ensures
        match r {
            Option::Some(v) => wf_node(v.0@) && v.0@.rule == Rule::function && pos < v.1
                <= src@.len(),
            Option::None => true,
        },
    decreases src@.len() - pos, 1int,
{
    let cur = skip_ws(src, we);
    if !(cur < src.len() && src[cur] == '(') {
        return Option::None;
    }
    let lstart = skip_ws(src, cur + 1);
    let labels = match parse_labels(src, lstart) {
        Option::None => {
            return Option::None;
        },
        Option::Some(v) => v,
    };
    let close = labels.1;
    if !(close < src.len() && src[close] == ')') {
        return Option::None;
    }
    let d = skip_ws(src, close + 1);
    let dwe = word_end(src, d);
    if !range_is(src, d, dwe, "do") {
        return Option::None;
    }
    let bstart = skip_ws(src, dwe);
    let body = match parse_expr(src, bstart) {
        Option::None => {
            return Option::None;
        },
        Option::Some(v) => v,
    };
    let t = word_end(src, body.1);
    if !range_is(src, body.1, t, "done") {
        return Option::None;
    }
    let mut kids: Vec<ParseNode> = Vec::new();
    kids.push(labels.0);
    kids.push(body.0);
    proof {
        lemma_nodes_view(kids@);
    }
    let node = ParseNode::new(Rule::function, make_span(src, pos, t), kids);
    Option::Some((node, t))
}

/// An application: the callee identifier and a parenthesized,
/// comma-separated argument list, possibly empty.
#[verifier::loop_isolation(false)]
fn parse_application(src: &Vec<char>, pos: usize) -> (r: Option<(ParseNode, usize)>)
    requires
        pos <= src@.len(),
    ensures
        match r {
            Option::Some(v) => wf_node(v.0@) && v.0@.rule == Rule::application && pos < v.1
                <= src@.len(),
            Option::None => true,
        },
    decreases src@.len() - pos, 1int,
{
    let we = word_end(src, pos);
    if we == pos {
        return Option::None;
    }
    let identnode = leaf(src, Rule::ident, pos, we);
    let q = skip_ws(src, we);
    if !(q < src.len() && src[q] == '(') {
        return Option::None;
    }
    let astart = skip_ws(src, q + 1);
    if astart < src.len() && src[astart] == ')' {
        let mut kids: Vec<ParseNode> = Vec::new();
        kids.push(identnode);
        proof {
            lemma_nodes_view(kids@);
        }
        let node = ParseNode::new(Rule::application, make_span(src, pos, astart + 1), kids);
        return Option::Some((node, astart + 1));
    }
    let mut args: Vec<ParseNode> = Vec::new();
    let mut cur: usize = astart;
    proof {
        lemma_nodes_view(args@);
    }
    loop
        invariant
            astart <= cur,
            pos < cur <= src@.len(),
            wf_nodes(nodes_view(args@)),
        decreases src@.len() - cur,
    {
        let a = match parse_expr(src, cur) {
            Option::None => {
                return Option::None;
            },
            Option::Some(v) => v,
        };
        let ghost args0 = args@;
        let ghost before = nodes_view(args@);
        args.push(a.0);
        cur = a.1;
        proof {
            lemma_nodes_view(args0);
            lemma_nodes_view(args@);
            assert(args@.drop_last() =~= args0);
            assert(args@.last() == a.0);
            assert(nodes_view(args@).drop_last() =~= before);
            assert(wf_nodes(nodes_view(args@)));
        }
        if cur < src.len() && src[cur] == ',' {
            cur = skip_ws(src, cur + 1);
        } else {
            break ;
        }
    }
    if !(cur < src.len() && src[cur] == ')') {
        return Option::None;
    }
    let argsnode = ParseNode::new(Rule::arguments, make_span(src, astart, cur), args);
    let mut kids: Vec<ParseNode> = Vec::new();
    kids.push(identnode);
    kids.push(argsnode);
    proof {
        lemma_nodes_view(kids@);
    }
    let node = ParseNode::new(Rule::application, make_span(src, pos, cur + 1), kids);
    Option::Some((node, cur + 1))
}

/// A declaration: an identifier bound to a body expression, with an
/// optional continuation expression after it.
fn parse_declaration(src: &Vec<char>, pos: usize) -> (r: Option<(ParseNode, usize)>)
    requires
        pos <= src@.len(),
    ensures
        match r {
            Option::Some(v) => wf_node(v.0@) && v.0@.rule == Rule::declaration && pos < v.1
                <= src@.len(),
            Option::None => true,
        },
{
    if !(pos < src.len() && alpha(src[pos])) {
        return Option::None;
    }
    let we = word_end(src, pos);
    let identnode = leaf(src, Rule::ident, pos, we);
    let q = skip_ws(src, we);
    if !(q < src.len() && src[q] == '=') {
        return Option::None;
    }
    let bstart = skip_ws(src, q + 1);
    let body = match parse_expr(src, bstart) {
        Option::None => {
            return Option::None;
        },
        Option::Some(v) => v,
    };
    let mut kids: Vec<ParseNode> = Vec::new();
    kids.push(identnode);
    kids.push(body.0);
    let mut end = body.1;
    if end < src.len() {
        let rest = match parse_expr(src, end) {
            Option::None => {
                return Option::None;
            },
            Option::Some(v) => v,
        };
        kids.push(rest.0);
        end = rest.1;
    }
    proof {
        lemma_nodes_view(kids@);
        let sub = nodes_view(kids@).subrange(1, nodes_view(kids@).len() as int);
        assert(forall|m: int| 0 <= m < sub.len() ==> #[trigger] sub[m] == nodes_view(kids@)[m + 1]);
        crate::parse_tree::lemma_wf_nodes_intro(sub);
    }
    let node = ParseNode::new(Rule::declaration, make_span(src, pos, end), kids);
    Option::Some((node, end))
}

/// A whole source unit: optional blanks, at most one declaration or
/// expression, and the end of the input, which contributes the closing
/// end-of-input marker.
fn parse_goat(src: &Vec<char>) -> (r: Option<ParseNode>)
    ensures
        match r {
            Option::Some(n) => wf_node(n@) && n@.rule == Rule::goat && n@.span.start == 0
                && n@.span.end == src@.len(),
            Option::None => true,
        },
        src@.len() == 0 ==> (r matches Some(n) && spec_build(n@) == AstView::Program(
            Box::new(AstView::Empty),
        )),
{
    let len = src.len();
    let start = skip_ws(src, 0);
    let mut kids: Vec<ParseNode> = Vec::new();
    if start < len {
        let child = match parse_declaration(src, start) {
            Option::Some(v) => v,
            Option::None => match parse_expr(src, start) {
                Option::None => {
                    return Option::None;
                },
                Option::Some(v) => v,
            },
        };
        if child.1 != len {
            return Option::None;
        }
        kids.push(child.0);
    }
    kids.push(leaf(src, Rule::EOI, len, len));
    proof {
        lemma_nodes_view(kids@);
        assert(nodes_view(kids@).len() >= 1);
        assert(nodes_view(kids@)[0] == kids@[0]@);
        assert(wf_node(kids@[0]@));
    }
    let node = ParseNode::new(Rule::goat, make_span(src, 0, len), kids);
    proof {
        if src@.len() == 0 {
            assert(node@.children[0].rule == Rule::EOI);
            assert(spec_build(node@.children[0]) == AstView::Empty);
            assert(spec_build(node@) == AstView::Program(Box::new(AstView::Empty)));
        }
    }
    Option::Some(node)
}

/// The grammar parser of the language.
pub struct GoatParser;

impl GoatParser {
    /// Parses `input` starting from the given grammar rule and returns
    /// the rule's node, or nothing if the input does not match. Every
    /// node returned is one the tree builder recognizes, except a bare
    /// label list, which only ever feeds a function node.
    pub fn parse(rule: Rule, input: &str) -> (r: Option<ParseNode>)
        ensures
            match r {
                Option::Some(n) => n@.rule == rule && (rule != Rule::labels ==> wf_node(n@))
                    && (rule == Rule::goat ==> n@.span.start == 0 && n@.span.end
                    == input@.len()),
                Option::None => true,
            },
            rule == Rule::goat && input@.len() == 0 ==> (r matches Some(n) && spec_build(n@)
                == AstView::Program(Box::new(AstView::Empty))),
    {
        let src = chars_of(input);
        match rule {
            Rule::goat => parse_goat(&src),
            Rule::expr => match parse_expr(&src, 0) {
                Option::Some(v) => Option::Some(v.0),
                Option::None => Option::None,
            },
            Rule::number => {
                if src.len() > 0 && digit(src[0]) {
                    Option::Some(parse_number(&src, 0).0)
                } else {
                    Option::None
                }
            },
            Rule::string => {
                if src.len() > 0 && src[0] == '"' {
                    match parse_string(&src, 0) {
                        Option::Some(v) => Option::Some(v.0),
                        Option::None => Option::None,
                    }
                } else {
                    Option::None
                }
            },
            Rule::boolean => {
                let we = word_end(&src, 0);
                if range_is(&src, 0, we, "true") || range_is(&src, 0, we, "false") {
                    Option::Some(leaf(&src, Rule::boolean, 0, we))
                } else {
                    Option::None
                }
            },
            Rule::ident => {
                if src.len() > 0 && alpha(src[0]) {
                    let we = word_end(&src, 0);
                    Option::Some(leaf(&src, Rule::ident, 0, we))
                } else {
                    Option::None
                }
            },
            Rule::declaration => match parse_declaration(&src, 0) {
                Option::Some(v) => Option::Some(v.0),
                Option::None => Option::None,
            },
            Rule::labels => match parse_labels(&src, 0) {
                Option::Some(v) => Option::Some(v.0),
                Option::None => Option::None,
            },
            Rule::function => {
                let we = word_end(&src, 0);
                if range_is(&src, 0, we, "program") && we > 0 {
                    match parse_function(&src, 0, we) {
                        Option::Some(v) => Option::Some(v.0),
                        Option::None => Option::None,
                    }
                } else {
                    Option::None
                }
            },
            Rule::conditional => {
                let we = word_end(&src, 0);
                if range_is(&src, 0, we, "if") && we > 0 {
                    match parse_conditional(&src, 0, we) {
                        Option::Some(v) => Option::Some(v.0),
                        Option::None => Option::None,
                    }
                } else {
                    Option::None
                }
            },
            Rule::application => match parse_application(&src, 0) {
                Option::Some(v) => Option::Some(v.0),
                Option::None => Option::None,
            },
            _ => Option::None,
        }
    }
}

} // verus!
