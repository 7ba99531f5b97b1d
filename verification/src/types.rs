//! The type-tag enumeration: a minimal vocabulary of type names with no
//! inference or checking logic attached.

use vstd::prelude::*;

verus! {

/// A type tag of the language.
#[derive(Hash, Eq, PartialEq, Debug)]
pub enum Ty {
    Nothing,
    Number,
    String,
    Bool,
    Function(Vec<Box<Ty>>),
    Variable(String),
}

} // verus!
