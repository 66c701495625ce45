//! Operators and the precedence relation that drives the parser.
//!
//! The comparison relation on operators is intentionally not antisymmetric:
//! operators of equal precedence compare as equal. It is realised as an
//! explicit precedence rank so that the parser's reduction rule
//! (`pop while top >= incoming`) is decidable and easy to state.

pub mod binary_operator;
pub mod boolean_operator;

pub use binary_operator::BinaryOperator;
pub use boolean_operator::BooleanOperator;

use vstd::prelude::*;

verus! {

/// An operator of either category: relational (`Boolean`, producing truth
/// values) or arithmetic (`Binary`, producing numbers).
#[derive(Debug, Clone, Copy)]
pub enum Operator {
    Boolean(BooleanOperator),
    Binary(BinaryOperator),
}

impl Operator {
    /// The precedence rank: every relational operator binds loosest, `Add`
    /// and `Subtract` share the middle rank, `Multiply` binds tightest.
    pub open spec fn spec_precedence(self) -> int {
        match self {
            Operator::Boolean(_) => 0,
            Operator::Binary(BinaryOperator::Add) => 1,
            Operator::Binary(BinaryOperator::Subtract) => 1,
            Operator::Binary(BinaryOperator::Multiply) => 2,
        }
    }

    /// Executable precedence rank.
    pub fn precedence(&self) -> (r: u8)
        ensures
            r == self.spec_precedence(),
    {
        match self {
            Operator::Boolean(_) => 0,
            Operator::Binary(BinaryOperator::Add) => 1,
            Operator::Binary(BinaryOperator::Subtract) => 1,
            Operator::Binary(BinaryOperator::Multiply) => 2,
        }
    }

    /// Whether this operator is relational: the category a validated
    /// constraint must have at its root.
    pub open spec fn spec_is_boolean(self) -> bool {
        self is Boolean
    }
}

impl PartialEq for Operator {
    /// Operators are compared by precedence alone: `Add == Subtract`, all
    /// relational operators are mutually equal, and no relational operator
    /// equals an arithmetic one.
    fn eq(&self, other: &Operator) -> (r: bool) {
        self.precedence() == other.precedence()
    }
}

impl vstd::std_specs::cmp::PartialEqSpecImpl for Operator {
    open spec fn obeys_eq_spec() -> bool {
        true
    }

    open spec fn eq_spec(&self, other: &Operator) -> bool {
        self.spec_precedence() == other.spec_precedence()
    }
}

impl PartialOrd for Operator {
    /// Operators are ordered by precedence: relational < `Add`/`Subtract`
    /// < `Multiply`.
    fn partial_cmp(&self, other: &Operator) -> (r: Option<core::cmp::Ordering>) {
        let a = self.precedence();
        let b = other.precedence();
        if a < b {
            Some(core::cmp::Ordering::Less)
        } else if a == b {
            Some(core::cmp::Ordering::Equal)
        } else {
            Some(core::cmp::Ordering::Greater)
        }
    }
}

impl vstd::std_specs::cmp::PartialOrdSpecImpl for Operator {
    open spec fn obeys_partial_cmp_spec() -> bool {
        true
    }

    open spec fn partial_cmp_spec(&self, other: &Operator) -> Option<core::cmp::Ordering> {
        if self.spec_precedence() < other.spec_precedence() {
            Some(core::cmp::Ordering::Less)
        } else if self.spec_precedence() == other.spec_precedence() {
            Some(core::cmp::Ordering::Equal)
        } else {
            Some(core::cmp::Ordering::Greater)
        }
    }
}

} // verus!
