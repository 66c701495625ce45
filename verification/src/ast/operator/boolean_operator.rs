//! The relational operators.

use vstd::prelude::*;

verus! {

/// A relational operator. All three share one precedence rank: a constraint
/// has no nested relational sub-expressions, so no tie-break among them is
/// ever needed.
#[derive(Debug, Clone, Copy)]
pub enum BooleanOperator {
    Equal,
    GreaterThan,
    LessThan,
}

impl PartialEq for BooleanOperator {
    /// Relational operators all share one precedence rank, so they compare
    /// as mutually equal.
    fn eq(&self, other: &BooleanOperator) -> (r: bool) {
        true
    }
}

impl vstd::std_specs::cmp::PartialEqSpecImpl for BooleanOperator {
    open spec fn obeys_eq_spec() -> bool {
        true
    }

    open spec fn eq_spec(&self, other: &BooleanOperator) -> bool {
        true
    }
}

impl PartialOrd for BooleanOperator {
    /// All relational operators compare as equal.
    fn partial_cmp(&self, other: &BooleanOperator) -> (r: Option<core::cmp::Ordering>) {
        Some(core::cmp::Ordering::Equal)
    }
}

impl vstd::std_specs::cmp::PartialOrdSpecImpl for BooleanOperator {
    open spec fn obeys_partial_cmp_spec() -> bool {
        true
    }

    open spec fn partial_cmp_spec(&self, other: &BooleanOperator) -> Option<core::cmp::Ordering> {
        Some(core::cmp::Ordering::Equal)
    }
}

} // verus!
