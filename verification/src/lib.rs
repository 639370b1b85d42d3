//! A small dynamically-typed scripting language: a grammar that turns source
//! text into an abstract syntax tree, and a tree-walking evaluator that runs
//! that tree against a chain of lexical scopes.

pub mod ast;
pub mod interp;
pub mod natives;
pub mod parser;
pub mod render;
pub mod scope;

use vstd::prelude::*;

verus! {

/// Kinds of runtime errors a run can end with.
#[derive(Clone, Copy, Debug, PartialEq, Eq, Structural)]
pub enum Error {
    /// The input did not match the grammar; carries the position (in
    /// characters) at which parsing stopped, so the host can report the
    /// unconsumed remainder.
    SyntaxError(usize),
    /// A symbol lookup reached the root scope without a match.
    UndefinedSymbol,
    /// An assignment reached the root scope without an existing binding.
    UndefinedAssignmentTarget,
    /// A native was called with fewer than its minimum arguments, or a user
    /// function with more arguments than it declares parameters.
    ArityError,
    /// An operator or condition received operand types outside its domain.
    TypeError,
    /// A declaration, assignment or argument position received no value.
    VoidValueError,
    /// An arithmetic result cannot be represented (overflow, division by zero).
    ArithmeticError,
    /// The step budget handed to the run was exhausted.
    OutOfSteps,
}

} // verus!
