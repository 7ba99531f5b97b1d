use goat_parser::Ast;
use goat_parser::Bool;
use goat_parser::GoatParser;
use goat_parser::Identifier;
use goat_parser::Label;
use goat_parser::Namer;
use goat_parser::Renamer;
use goat_parser::Rewriter;
use goat_parser::Rule;
use goat_parser::Span;

/// The span of `text` standing at character offsets `[start, end)`.
fn span(start: usize, end: usize, text: &str) -> Span {
    Span::new(start, end, text.to_string())
}

/// A number literal node over the given region.
fn number(start: usize, end: usize, text: &str) -> Ast {
    Ast::Number(span(start, end, text))
}

/// An identifier node over the given region, internal name untouched.
fn ident(start: usize, end: usize, text: &str) -> Ast {
    Ast::Identifier(Identifier::new(span(start, end, text)))
}

/// Parses a whole source unit and builds its tree.
fn build(source: &str) -> Ast {
    let root = GoatParser::parse(Rule::goat, source).unwrap();
    Ast::new(&root)
}

/// The internal names of the identifier nodes, in traversal order.
fn internal_names(ast: &Ast, out: &mut Vec<String>) {
    match ast {
        Ast::Identifier(i) => out.push(i.internal().to_string()),
        Ast::Program(p) => internal_names(p, out),
        Ast::Function { labels: _, body } => internal_names(body, out),
        Ast::Application { identifier: _, arguments } => {
            for a in arguments {
                internal_names(a, out);
            }
        },
        Ast::Conditional { condition, true_branch, else_branch } => {
            internal_names(condition, out);
            internal_names(true_branch, out);
            if let Some(e) = else_branch {
                internal_names(e, out);
            }
        },
        Ast::Declaration { identifier: _, body, rest } => {
            internal_names(body, out);
            if let Some(r) = rest {
                internal_names(r, out);
            }
        },
        Ast::Plus(l, r)
        | Ast::Minus(l, r)
        | Ast::Mult(l, r)
        | Ast::Div(l, r)
        | Ast::Lte(l, r)
        | Ast::Gte(l, r)
        | Ast::Lt(l, r)
        | Ast::Gt(l, r) => {
            internal_names(l, out);
            internal_names(r, out);
        },
        _ => {},
    }
}

#[test]
fn mod_converts_empty() {
    let pairs = GoatParser::parse(Rule::goat, "").unwrap();
    println!("{:x?}", pairs.clone());
    let ast = Ast::new(&pairs);
    assert_eq!(ast, Ast::Program(Box::new(Ast::Empty)));
}

#[test]
fn ast_converts_empty() {
    let pairs = GoatParser::parse(Rule::goat, "").unwrap();
    println!("{:x?}", pairs.clone());
    let ast = Ast::new(&pairs);
    assert_eq!(ast, Ast::Program(Box::new(Ast::Empty)));
}

#[test]
fn mod_converts_number() {
    let prog = "1";
    let pairs = GoatParser::parse(Rule::goat, prog).unwrap();
    println!("{:#?}", pairs.clone());
    let ast = Ast::new(&pairs);
    let span = GoatParser::parse(Rule::number, prog).unwrap().as_span();
    assert_eq!(ast, Ast::Program(Box::new(Ast::Number(span))));
}

#[test]
fn ast_converts_number() {
    let prog = "1";
    let pairs = GoatParser::parse(Rule::goat, prog).unwrap();
    println!("{:#?}", pairs.clone());
    let ast = Ast::new(&pairs);
    let span = GoatParser::parse(Rule::number, prog).unwrap().as_span();
    assert_eq!(ast, Ast::Program(Box::new(Ast::Number(span))));
}

#[test]
fn mod_converts_function() {
    let pairs = GoatParser::parse(Rule::goat, "program( ) do a done").unwrap();
    let ast = Ast::new(&pairs);
    println!("{:#?}", ast)
}

#[test]
fn ast_converts_function() {
    let pairs = GoatParser::parse(Rule::goat, "program(a, b) do a done").unwrap();
    let ast = Ast::new(&pairs);
    println!("{:#?}", ast)
}

#[test]
fn mod_converts_math() {
    let pairs = GoatParser::parse(Rule::goat, "1 + 1").unwrap();
    let ast = Ast::new(&pairs);
    println!("{:#?}", ast)
}

#[test]
fn ast_converts_math() {
    let pairs = GoatParser::parse(Rule::goat, "1 + 1").unwrap();
    let ast = Ast::new(&pairs);
    println!("{:#?}", ast)
}

#[test]
fn rewrites_ast() {
    let id = "b";
    let pairs = GoatParser::parse(Rule::goat, id).unwrap();
    let ast = Ast::new(&pairs.clone());
    let mut pass = Renamer::new();
    let rewrite = pass.visit(&ast);
    let ident = GoatParser::parse(Rule::ident, id).unwrap().as_span();

    assert_eq!(
        Ast::new(&pairs),
        Ast::Program(Box::new(Ast::Identifier(
            Identifier::new(ident.clone()).rename("b".to_string())
        )))
    );

    assert_eq!(
        rewrite,
        Ast::Program(Box::new(Ast::Identifier(
            Identifier::new(ident.clone()).rename("a".to_string())
        )))
    );
}

#[test]
fn parses_boolean_comparisons() {
    let math = "true<false";
    let pairs = GoatParser::parse(Rule::goat, math).unwrap();
    let ast = Ast::new(&pairs);
    let mut pass = Renamer::new();
    let rewrite = pass.visit(&ast.clone());

    assert_eq!(
        rewrite,
        Ast::Program(Box::new(Ast::Lt(
            Box::new(Ast::Bool(Bool::True)),
            Box::new(Ast::Bool(Bool::False))
        )))
    );
}

#[test]
fn builds_parenthesized_nesting() {
    let ast = build("1 + (3 - 5)");
    assert_eq!(
        ast,
        Ast::Program(Box::new(Ast::Plus(
            Box::new(number(0, 1, "1")),
            Box::new(Ast::Minus(
                Box::new(number(5, 6, "3")),
                Box::new(number(9, 10, "5"))
            ))
        )))
    );
}

#[test]
fn builds_precedence_groups() {
    let ast = build("1 + 2 * 3");
    assert_eq!(
        ast,
        Ast::Program(Box::new(Ast::Plus(
            Box::new(number(0, 1, "1")),
            Box::new(Ast::Mult(
                Box::new(number(4, 5, "2")),
                Box::new(number(8, 9, "3"))
            ))
        )))
    );
}

#[test]
fn builds_comparison_loosest() {
    let ast = build("1 + 2 < 3");
    assert_eq!(
        ast,
        Ast::Program(Box::new(Ast::Lt(
            Box::new(Ast::Plus(
                Box::new(number(0, 1, "1")),
                Box::new(number(4, 5, "2"))
            )),
            Box::new(number(8, 9, "3"))
        )))
    );
}

#[test]
fn builds_left_associative_chain() {
    let ast = build("a - b - c");
    assert_eq!(
        ast,
        Ast::Program(Box::new(Ast::Minus(
            Box::new(Ast::Minus(
                Box::new(ident(0, 1, "a")),
                Box::new(ident(4, 5, "b"))
            )),
            Box::new(ident(8, 9, "c"))
        )))
    );
}

#[test]
fn builds_function_with_labels() {
    let ast = build("program(a, b) do a done");
    assert_eq!(
        ast,
        Ast::Program(Box::new(Ast::Function {
            labels: vec![
                Label::new(Identifier::new(span(8, 9, "a"))),
                Label::new(Identifier::new(span(11, 12, "b"))),
            ],
            body: Box::new(ident(17, 18, "a")),
        }))
    );
}

#[test]
fn builds_application_without_arguments() {
    let ast = build("a()");
    assert_eq!(
        ast,
        Ast::Program(Box::new(Ast::Application {
            identifier: Identifier::new(span(0, 1, "a")),
            arguments: vec![],
        }))
    );
}

#[test]
fn builds_conditional_without_else() {
    let ast = build("if true then 1 done");
    assert_eq!(
        ast,
        Ast::Program(Box::new(Ast::Conditional {
            condition: Box::new(Ast::Bool(Bool::True)),
            true_branch: Box::new(number(13, 14, "1")),
            else_branch: None,
        }))
    );
}

#[test]
fn builds_declaration_with_rest() {
    let ast = build("x = 1 x");
    assert_eq!(
        ast,
        Ast::Program(Box::new(Ast::Declaration {
            identifier: Identifier::new(span(0, 1, "x")),
            body: Box::new(number(4, 5, "1")),
            rest: Some(Box::new(ident(6, 7, "x"))),
        }))
    );
}

#[test]
fn builds_string_literal() {
    let ast = build("\"hi\"");
    assert_eq!(ast, Ast::Program(Box::new(Ast::Str(span(0, 4, "\"hi\"")))));
}

#[test]
fn identity_folder_rebuilds_unchanged() {
    let ast = build("1 + (3 - 5)");
    let mut pass = Rewriter::new();
    assert_eq!(pass.visit(&ast), ast);

    let bigger = build("program(a, b) do if a < b then a(1) else b done done");
    let mut pass = Rewriter::new();
    assert_eq!(pass.visit(&bigger), bigger);
}

#[test]
fn renames_every_occurrence_freshly() {
    let ast = build("x - y - x");
    let mut pass = Renamer::new();
    let renamed = pass.visit(&ast);
    assert_eq!(
        renamed,
        Ast::Program(Box::new(Ast::Minus(
            Box::new(Ast::Minus(
                Box::new(Ast::Identifier(
                    Identifier::new(span(0, 1, "x")).rename("a".to_string())
                )),
                Box::new(Ast::Identifier(
                    Identifier::new(span(4, 5, "y")).rename("b".to_string())
                ))
            )),
            Box::new(Ast::Identifier(
                Identifier::new(span(8, 9, "x")).rename("c".to_string())
            ))
        )))
    );
}

#[test]
fn renaming_ignores_spelling() {
    let short = build("x - y - x");
    let long = build("foo - bar - baz");
    let mut first = Renamer::new();
    let mut second = Renamer::new();
    let mut short_names: Vec<String> = Vec::new();
    let mut long_names: Vec<String> = Vec::new();
    internal_names(&first.visit(&short), &mut short_names);
    internal_names(&second.visit(&long), &mut long_names);
    assert_eq!(short_names, vec!["a", "b", "c"]);
    assert_eq!(long_names, vec!["a", "b", "c"]);
}

#[test]
fn fresh_names_follow_the_counter() {
    let mut namer = Namer::new();
    let mut drawn: Vec<String> = Vec::new();
    for _ in 0..28 {
        drawn.push(namer.next());
    }
    assert_eq!(drawn[0], "a");
    assert_eq!(drawn[1], "b");
    assert_eq!(drawn[2], "c");
    assert_eq!(drawn[25], "z");
    // counter value twenty-six: least-significant digit first
    assert_eq!(drawn[26], "ab");
    assert_eq!(drawn[27], "bb");
}

#[test]
fn rewriter_draws_the_same_names() {
    let mut rewriter = Rewriter::new();
    assert_eq!(rewriter.next(), "a");
    assert_eq!(rewriter.next(), "b");
    assert_eq!(rewriter.next(), "c");
}
