//! Results of evaluating an expression tree against a candidate code, and the
//! evaluation contract itself.

use vstd::prelude::*;

verus! {

/// The two kinds of result an expression node can produce.
#[derive(Debug, PartialEq, Eq, Clone, Copy)]
pub enum ValueKind {
    Numerical,
    Boolean,
}

/// A tagged evaluation result: a small number or a truth value.
///
/// Arithmetic on `Numerical` values wraps around at the width of `u8`; a
/// constraint whose arithmetic leaves the 0..=255 range therefore compares
/// the wrapped value.
#[derive(Debug, PartialEq, Eq, Clone, Copy)]
pub enum Value {
    Numerical(u8),
    Boolean(bool),
}

/// Why evaluating an expression tree against a candidate failed.
#[derive(Debug, PartialEq, Eq, Clone, Copy)]
pub enum EvalError {
    /// An operator was applied to an operand of the wrong kind.
    TypeMismatch { expected: ValueKind },
    /// A variable has no slot in the candidate vector.
    VariableOutOfRange,
    /// An operator fell outside both categories; a generic internal error
    /// that no well-formed tree produces.
    UnknownOperatorCategory,
}

/// The evaluation contract: a node is evaluated against a candidate digit
/// vector, producing a `Value` or a typed error, exactly as its
/// specification-level counterpart `eval_spec` says. Evaluation is pure: it
/// mutates neither the node nor the candidate.
pub trait Evaluable {
    /// What evaluating this node against the digit vector `digits` yields.
    spec fn eval_spec(&self, digits: Seq<u8>) -> Result<Value, EvalError>;

    fn evaluate(&self, arr: &Vec<u8>) -> (r: Result<Value, EvalError>)
        ensures
            r == self.eval_spec(arr@),
    ;
}

impl Evaluable for Value {
    /// A literal evaluates to itself, whatever the candidate.
    open spec fn eval_spec(&self, digits: Seq<u8>) -> Result<Value, EvalError> {
        Ok(*self)
    }

    fn evaluate(&self, arr: &Vec<u8>) -> (r: Result<Value, EvalError>) {
        Ok(*self)
    }
}

} // verus!
