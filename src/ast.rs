use vstd::prelude::*;
use crate::variable::Variable;

verus! {

/// The expression forms the dispatcher evaluates for arguments.
#[derive(Debug)]
pub enum Expression {
    /// An already evaluated value spliced into the tree.
    Variable(Variable),
    /// A call of a built-in operation.
    Call(Call),
    /// Evaluates the inner expression and signals a non-local return.
    Return(Box<Expression>),
}

/// An operation name with its argument expressions, in source order.
#[derive(Debug)]
pub struct Call {
    pub name: String,
    pub args: Vec<Expression>,
}

} // verus!
