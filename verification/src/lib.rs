//! Front-end tree layer of a small expression-oriented language: a grammar
//! parser producing a concrete syntax tree, a builder turning that tree into a
//! typed abstract syntax tree, a generic traversal framework (visitor and
//! folder), and a deterministic identifier-renaming pass.

pub mod ast;
pub mod builder;
pub mod folder;
pub mod names;
pub mod parse_tree;
pub mod parser;
pub mod renamer;
pub mod span;
pub mod types;
pub mod visitor;

pub use ast::Ast;
pub use ast::Bool;
pub use ast::Identifier;
pub use ast::Label;
pub use folder::Folder;
pub use folder::Rewriter;
pub use parse_tree::ParseNode;
pub use parse_tree::Rule;
pub use parser::GoatParser;
pub use renamer::Namer;
pub use renamer::Renamer;
pub use span::Span;
pub use types::Ty;
pub use visitor::Visitor;
