use goat_parser::Ast;
use goat_parser::Bool;
use goat_parser::GoatParser;
use goat_parser::Identifier;
use goat_parser::Label;
use goat_parser::Rule;
use goat_parser::Span;
use goat_parser::Visitor;

/// A visitor that counts the nodes of a tree.
struct NodeCount;

impl Visitor for NodeCount {
    type Output = usize;

    fn visit_empty(&mut self) -> usize {
        1
    }

    fn visit_number(&mut self, _number: Span) -> usize {
        1
    }

    fn visit_string(&mut self, _string: Span) -> usize {
        1
    }

    fn visit_bool(&mut self, _b: Bool) -> usize {
        1
    }

    fn visit_identifier(&mut self, _identifier: Identifier) -> usize {
        1
    }

    fn visit_program(&mut self, ast: Box<Ast>) -> usize {
        1 + self.visit(*ast)
    }

    fn visit_label(&mut self, _label: Label) -> usize {
        1
    }

    fn visit_function(&mut self, labels: Vec<Label>, program: Box<Ast>) -> usize {
        let mut n = 1 + self.visit(*program);
        for l in labels {
            n += self.visit_label(l);
        }
        n
    }

    fn visit_application(&mut self, _identifier: Identifier, arguments: Vec<Ast>) -> usize {
        let mut n = 1;
        for a in arguments {
            n += self.visit(a);
        }
        n
    }

    fn visit_conditional(
        &mut self,
        condition: Box<Ast>,
        true_branch: Box<Ast>,
        else_branch: Option<Box<Ast>>,
    ) -> usize {
        let mut n = 1 + self.visit(*condition) + self.visit(*true_branch);
        if let Some(e) = else_branch {
            n += self.visit(*e);
        }
        n
    }

    fn visit_declaration(
        &mut self,
        _identifier: Identifier,
        body: Box<Ast>,
        rest: Option<Box<Ast>>,
    ) -> usize {
        let mut n = 1 + self.visit(*body);
        if let Some(r) = rest {
            n += self.visit(*r);
        }
        n
    }

    fn visit_plus(&mut self, lhs: Box<Ast>, rhs: Box<Ast>) -> usize {
        1 + self.visit(*lhs) + self.visit(*rhs)
    }

    fn visit_minus(&mut self, lhs: Box<Ast>, rhs: Box<Ast>) -> usize {
        1 + self.visit(*lhs) + self.visit(*rhs)
    }

    fn visit_mult(&mut self, lhs: Box<Ast>, rhs: Box<Ast>) -> usize {
        1 + self.visit(*lhs) + self.visit(*rhs)
    }

    fn visit_div(&mut self, lhs: Box<Ast>, rhs: Box<Ast>) -> usize {
        1 + self.visit(*lhs) + self.visit(*rhs)
    }

    fn visit_lte(&mut self, lhs: Box<Ast>, rhs: Box<Ast>) -> usize {
        1 + self.visit(*lhs) + self.visit(*rhs)
    }

    fn visit_gte(&mut self, lhs: Box<Ast>, rhs: Box<Ast>) -> usize {
        1 + self.visit(*lhs) + self.visit(*rhs)
    }

    fn visit_lt(&mut self, lhs: Box<Ast>, rhs: Box<Ast>) -> usize {
        1 + self.visit(*lhs) + self.visit(*rhs)
    }

    fn visit_gt(&mut self, lhs: Box<Ast>, rhs: Box<Ast>) -> usize {
        1 + self.visit(*lhs) + self.visit(*rhs)
    }
}

#[test]
fn visitor_aggregates_over_the_tree() {
    let root = GoatParser::parse(Rule::goat, "1 + 2").unwrap();
    let ast = Ast::new(&root);
    let mut count = NodeCount;
    // program, plus, and two number literals
    assert_eq!(count.visit(ast), 4);
}

#[test]
fn visitor_sees_every_branch() {
    let root = GoatParser::parse(Rule::goat, "if true then 1 else x done").unwrap();
    let ast = Ast::new(&root);
    let mut count = NodeCount;
    // program, conditional, boolean, number, identifier
    assert_eq!(count.visit(ast), 5);
}
