//! Variables: single letters resolved positionally against a candidate code.

use crate::ast::evaluable::{EvalError, Evaluable, Value};
use vstd::prelude::*;

verus! {

/// A named slot of the candidate code: `'a'` is position 0, `'b'` position 1,
/// and so on.
#[derive(Debug, PartialEq, Eq, Clone, Copy)]
pub struct Variable {
    pub name: char,
}

/// The positional index a variable name stands for.
pub open spec fn spec_variable_index(name: char) -> int {
    name as int - 97
}

impl Variable {
    /// Whether the name is a lower-case letter with a slot in a digit vector
    /// of length `len`.
    pub open spec fn spec_in_range(self, len: nat) -> bool {
        'a' as int <= self.name as int <= 'z' as int && spec_variable_index(self.name) < len
    }
}

impl Evaluable for Variable {
    /// A variable evaluates to the digit in its slot; a name without a slot
    /// in the candidate is reported, never read.
    open spec fn eval_spec(&self, digits: Seq<u8>) -> Result<Value, EvalError> {
        if self.spec_in_range(digits.len()) {
            Ok(Value::Numerical(digits[spec_variable_index(self.name)]))
        } else {
            Err(EvalError::VariableOutOfRange)
        }
    }

    fn evaluate(&self, arr: &Vec<u8>) -> (r: Result<Value, EvalError>) {
        let code = self.name as u32;
        if 97 <= code && code <= 122 {
            let index = (code - 97) as usize;
            if index < arr.len() {
                Ok(Value::Numerical(arr[index]))
            } else {
                Err(EvalError::VariableOutOfRange)
            }
        } else {
            Err(EvalError::VariableOutOfRange)
        }
    }
}

} // verus!
