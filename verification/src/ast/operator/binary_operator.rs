//! The arithmetic operators.

use vstd::prelude::*;

verus! {

/// An arithmetic operator. `Add` and `Subtract` share one precedence rank;
/// `Multiply` binds strictly tighter than both.
#[derive(Debug, Clone, Copy)]
pub enum BinaryOperator {
    Add,
    Subtract,
    Multiply,
}

impl BinaryOperator {
    /// The precedence rank within the arithmetic category.
    pub open spec fn spec_precedence(self) -> int {
        match self {
            BinaryOperator::Add => 0,
            BinaryOperator::Subtract => 0,
            BinaryOperator::Multiply => 1,
        }
    }

    /// Executable precedence rank.
    pub fn precedence(&self) -> (r: u8)
        ensures
            r == self.spec_precedence(),
    {
        match self {
            BinaryOperator::Add => 0,
            BinaryOperator::Subtract => 0,
            BinaryOperator::Multiply => 1,
        }
    }
}

impl PartialEq for BinaryOperator {
    /// Arithmetic operators are compared by precedence alone, so
    /// `Add == Subtract` while `Multiply` differs from both.
    fn eq(&self, other: &BinaryOperator) -> (r: bool) {
        self.precedence() == other.precedence()
    }
}

impl vstd::std_specs::cmp::PartialEqSpecImpl for BinaryOperator {
    open spec fn obeys_eq_spec() -> bool {
        true
    }

    open spec fn eq_spec(&self, other: &BinaryOperator) -> bool {
        self.spec_precedence() == other.spec_precedence()
    }
}

impl PartialOrd for BinaryOperator {
    /// `Add` and `Subtract` compare as equal; `Multiply` is strictly
    /// greater than both.
    fn partial_cmp(&self, other: &BinaryOperator) -> (r: Option<core::cmp::Ordering>) {
        let a = self.precedence();
        let b = other.precedence();
        if a < b {
            Some(core::cmp::Ordering::Less)
        } else if a == b {
            Some(core::cmp::Ordering::Equal)
        } else {
            Some(core::cmp::Ordering::Greater)
        }
    }
}

impl vstd::std_specs::cmp::PartialOrdSpecImpl for BinaryOperator {
    open spec fn obeys_partial_cmp_spec() -> bool {
        true
    }

    open spec fn partial_cmp_spec(&self, other: &BinaryOperator) -> Option<core::cmp::Ordering> {
        if self.spec_precedence() < other.spec_precedence() {
            Some(core::cmp::Ordering::Less)
        } else if self.spec_precedence() == other.spec_precedence() {
            Some(core::cmp::Ordering::Equal)
        } else {
            Some(core::cmp::Ordering::Greater)
        }
    }
}

} // verus!
