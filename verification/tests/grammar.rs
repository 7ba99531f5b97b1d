use goat_parser::GoatParser;
use goat_parser::ParseNode;
use goat_parser::Rule;

/// Asserts one node's rule tag and character span.
fn tok(n: &ParseNode, rule: Rule, start: usize, end: usize) {
    assert_eq!(n.as_rule(), rule);
    assert_eq!(n.as_span().start(), start);
    assert_eq!(n.as_span().end(), end);
}

#[test]
fn parses_empty() {
    let root = GoatParser::parse(Rule::goat, "").unwrap();
    tok(&root, Rule::goat, 0, 0);
    let kids = root.children();
    assert_eq!(kids.len(), 1);
    tok(&kids[0], Rule::EOI, 0, 0);
}

#[test]
fn parses_numbers() {
    let one = GoatParser::parse(Rule::number, "1").unwrap();
    tok(&one, Rule::number, 0, 1);
    assert_eq!(one.children().len(), 0);

    let frac = GoatParser::parse(Rule::number, "1.1").unwrap();
    tok(&frac, Rule::number, 0, 3);
    assert_eq!(frac.children().len(), 0);
}

#[test]
fn parses_strings() {
    let s = GoatParser::parse(Rule::string, r#""hello""#).unwrap();
    tok(&s, Rule::string, 0, 7);
    assert_eq!(s.children().len(), 0);
}

#[test]
fn parses_booleans() {
    let t = GoatParser::parse(Rule::boolean, "true").unwrap();
    tok(&t, Rule::boolean, 0, 4);

    let f = GoatParser::parse(Rule::boolean, "false").unwrap();
    tok(&f, Rule::boolean, 0, 5);
}

#[test]
fn parses_identifiers() {
    let a = GoatParser::parse(Rule::ident, "a").unwrap();
    tok(&a, Rule::ident, 0, 1);

    let mixed = GoatParser::parse(Rule::ident, "aA").unwrap();
    tok(&mixed, Rule::ident, 0, 2);

    let digits = GoatParser::parse(Rule::ident, "a9").unwrap();
    tok(&digits, Rule::ident, 0, 2);
}

#[test]
fn parses_declarations() {
    let plain = GoatParser::parse(Rule::declaration, "a = b").unwrap();
    tok(&plain, Rule::declaration, 0, 5);
    let kids = plain.children();
    assert_eq!(kids.len(), 2);
    tok(&kids[0], Rule::ident, 0, 1);
    tok(&kids[1], Rule::expr, 4, 5);
    tok(&kids[1].children()[0], Rule::ident, 4, 5);

    let with_rest = GoatParser::parse(Rule::declaration, "a = b a").unwrap();
    tok(&with_rest, Rule::declaration, 0, 7);
    let kids = with_rest.children();
    assert_eq!(kids.len(), 3);
    tok(&kids[0], Rule::ident, 0, 1);
    tok(&kids[1], Rule::expr, 4, 6);
    tok(&kids[1].children()[0], Rule::ident, 4, 5);
    tok(&kids[2], Rule::expr, 6, 7);
    tok(&kids[2].children()[0], Rule::ident, 6, 7);
}

#[test]
fn parses_functions() {
    let two = GoatParser::parse(Rule::labels, "a, b").unwrap();
    tok(&two, Rule::labels, 0, 4);
    assert_eq!(two.children().len(), 2);
    tok(&two.children()[0], Rule::ident, 0, 1);
    tok(&two.children()[1], Rule::ident, 3, 4);

    let one = GoatParser::parse(Rule::labels, "a").unwrap();
    tok(&one, Rule::labels, 0, 1);
    assert_eq!(one.children().len(), 1);
    tok(&one.children()[0], Rule::ident, 0, 1);

    let f = GoatParser::parse(Rule::function, "program(a) do a done").unwrap();
    tok(&f, Rule::function, 0, 20);
    let kids = f.children();
    assert_eq!(kids.len(), 2);
    tok(&kids[0], Rule::labels, 8, 9);
    tok(&kids[0].children()[0], Rule::ident, 8, 9);
    tok(&kids[1], Rule::expr, 14, 16);
    tok(&kids[1].children()[0], Rule::ident, 14, 15);
}

#[test]
fn parses_applications() {
    let app = GoatParser::parse(Rule::application, "a(1, true, b, program(a) do a done)")
        .unwrap();
    tok(&app, Rule::application, 0, 35);
    let kids = app.children();
    assert_eq!(kids.len(), 2);
    tok(&kids[0], Rule::ident, 0, 1);
    tok(&kids[1], Rule::arguments, 2, 34);
    let args = kids[1].children();
    assert_eq!(args.len(), 4);
    tok(&args[0], Rule::expr, 2, 3);
    tok(&args[0].children()[0], Rule::number, 2, 3);
    tok(&args[1], Rule::expr, 5, 9);
    tok(&args[1].children()[0], Rule::boolean, 5, 9);
    tok(&args[2], Rule::expr, 11, 12);
    tok(&args[2].children()[0], Rule::ident, 11, 12);
    tok(&args[3], Rule::expr, 14, 34);
    let func = &args[3].children()[0];
    tok(func, Rule::function, 14, 34);
    tok(&func.children()[0], Rule::labels, 22, 23);
    tok(&func.children()[0].children()[0], Rule::ident, 22, 23);
    tok(&func.children()[1], Rule::expr, 28, 30);
    tok(&func.children()[1].children()[0], Rule::ident, 28, 29);

    let empty = GoatParser::parse(Rule::application, "a()").unwrap();
    tok(&empty, Rule::application, 0, 3);
    assert_eq!(empty.children().len(), 1);
    tok(&empty.children()[0], Rule::ident, 0, 1);
}

#[test]
fn parses_conditional() {
    let c = GoatParser::parse(Rule::conditional, "if true then 1 else 0 done").unwrap();
    tok(&c, Rule::conditional, 0, 26);
    let kids = c.children();
    assert_eq!(kids.len(), 3);
    tok(&kids[0], Rule::expr, 3, 8);
    tok(&kids[0].children()[0], Rule::boolean, 3, 7);
    tok(&kids[1], Rule::expr, 13, 15);
    tok(&kids[1].children()[0], Rule::number, 13, 14);
    tok(&kids[2], Rule::expr, 20, 22);
    tok(&kids[2].children()[0], Rule::number, 20, 21);
}

#[test]
fn parses_math() {
    let sum = GoatParser::parse(Rule::expr, "1 + 2").unwrap();
    tok(&sum, Rule::expr, 0, 5);
    let kids = sum.children();
    assert_eq!(kids.len(), 3);
    tok(&kids[0], Rule::number, 0, 1);
    tok(&kids[1], Rule::plus, 2, 3);
    tok(&kids[2], Rule::number, 4, 5);

    let nested = GoatParser::parse(Rule::expr, "1 + (3 - 5)").unwrap();
    tok(&nested, Rule::expr, 0, 11);
    let kids = nested.children();
    assert_eq!(kids.len(), 3);
    tok(&kids[0], Rule::number, 0, 1);
    tok(&kids[1], Rule::plus, 2, 3);
    tok(&kids[2], Rule::expr, 5, 10);
    let inner = kids[2].children();
    assert_eq!(inner.len(), 3);
    tok(&inner[0], Rule::number, 5, 6);
    tok(&inner[1], Rule::minus, 7, 8);
    tok(&inner[2], Rule::number, 9, 10);
}

#[test]
fn rejects_malformed_input() {
    assert!(GoatParser::parse(Rule::goat, "1 +").is_none());
    assert!(GoatParser::parse(Rule::goat, "(").is_none());
    assert!(GoatParser::parse(Rule::goat, "\"unterminated").is_none());
    assert!(GoatParser::parse(Rule::goat, "if true then 1").is_none());
    assert!(GoatParser::parse(Rule::goat, "program(a) do a").is_none());
    assert!(GoatParser::parse(Rule::goat, "a = ").is_none());
    assert!(GoatParser::parse(Rule::goat, "1 2").is_none());
}

#[test]
fn parses_blank_input() {
    let root = GoatParser::parse(Rule::goat, "   ").unwrap();
    tok(&root, Rule::goat, 0, 3);
    let kids = root.children();
    assert_eq!(kids.len(), 1);
    tok(&kids[0], Rule::EOI, 3, 3);
}
