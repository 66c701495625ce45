//! Expression trees and their evaluation against a candidate code.

use crate::ast::evaluable::{EvalError, Evaluable, Value, ValueKind};
use crate::ast::operator::{BinaryOperator, BooleanOperator, Operator};
use crate::ast::variable::Variable;
use vstd::prelude::*;

verus! {

/// A constraint expression: a leaf (literal value or variable) or a binary
/// operation over two exclusively owned sub-trees.
#[derive(Debug, PartialEq)]
pub enum Expression {
    BinaryExp(BinaryExpression),
    Variable(Variable),
    Value(Value),
}

/// An internal tree node: an operator applied to two sub-expressions.
#[derive(Debug, PartialEq)]
pub struct BinaryExpression {
    pub l_value: Box<Expression>,
    pub operator: Operator,
    pub r_value: Box<Expression>,
}

/// The result of an arithmetic operator on two digits-or-wrapped values;
/// arithmetic wraps around at the width of `u8`.
pub open spec fn spec_apply_binary(op: BinaryOperator, l: u8, r: u8) -> u8 {
    match op {
        BinaryOperator::Add => vstd::wrapping::u8_specs::wrapping_add(l, r),
        BinaryOperator::Subtract => vstd::wrapping::u8_specs::wrapping_sub(l, r),
        BinaryOperator::Multiply => vstd::wrapping::u8_specs::wrapping_mul(l, r),
    }
}

/// The truth value of a relational operator on two numbers.
pub open spec fn spec_apply_boolean(op: BooleanOperator, l: u8, r: u8) -> bool {
    match op {
        BooleanOperator::Equal => l == r,
        BooleanOperator::GreaterThan => l > r,
        BooleanOperator::LessThan => l < r,
    }
}

/// What evaluating an expression tree against the digit vector `digits`
/// yields: the left sub-tree is evaluated first, and the first error wins.
pub open spec fn spec_eval_expression(e: Expression, digits: Seq<u8>) -> Result<Value, EvalError>
    decreases e,
{
    match e {
        Expression::Value(v) => v.eval_spec(digits),
        Expression::Variable(var) => var.eval_spec(digits),
        Expression::BinaryExp(bin_exp) => spec_eval_binary(bin_exp, digits),
    }
}

/// What evaluating a binary node yields: an arithmetic operator needs two
/// numbers and produces the (wrapping) number; a relational operator needs
/// two numbers and produces a truth value.
pub open spec fn spec_eval_binary(b: BinaryExpression, digits: Seq<u8>) -> Result<Value, EvalError>
    decreases b,
{
    match spec_eval_expression(*b.l_value, digits) {
        Err(e) => Err(e),
        Ok(lv) => match spec_eval_expression(*b.r_value, digits) {
            Err(e) => Err(e),
            Ok(rv) => match b.operator {
                Operator::Binary(op) => match (lv, rv) {
                    (Value::Numerical(l), Value::Numerical(r)) => Ok(
                        Value::Numerical(spec_apply_binary(op, l, r)),
                    ),
                    _ => Err(EvalError::TypeMismatch { expected: ValueKind::Numerical }),
                },
                Operator::Boolean(op) => match (lv, rv) {
                    (Value::Numerical(l), Value::Numerical(r)) => Ok(
                        Value::Boolean(spec_apply_boolean(op, l, r)),
                    ),
                    _ => Err(EvalError::TypeMismatch { expected: ValueKind::Boolean }),
                },
            },
        },
    }
}

impl Evaluable for Expression {
    open spec fn eval_spec(&self, digits: Seq<u8>) -> Result<Value, EvalError> {
        spec_eval_expression(*self, digits)
    }

    fn evaluate(&self, arr: &Vec<u8>) -> (r: Result<Value, EvalError>)
        decreases *self,
    {
        match self {
            Expression::Variable(var) => var.evaluate(arr),
            Expression::BinaryExp(bin_exp) => bin_exp.evaluate(arr),
            Expression::Value(val) => val.evaluate(arr),
        }
    }
}

impl Evaluable for BinaryExpression {
    open spec fn eval_spec(&self, digits: Seq<u8>) -> Result<Value, EvalError> {
        spec_eval_binary(*self, digits)
    }

    fn evaluate(&self, arr: &Vec<u8>) -> (r: Result<Value, EvalError>)
        decreases *self,
    {
        let l_result = self.l_value.evaluate(arr)?;
        let r_result = self.r_value.evaluate(arr)?;
        match self.operator {
            Operator::Binary(op) => match (l_result, r_result) {
                (Value::Numerical(l_val), Value::Numerical(r_val)) => {
                    let applied = match op {
                        BinaryOperator::Add => l_val.wrapping_add(r_val),
                        BinaryOperator::Subtract => l_val.wrapping_sub(r_val),
                        BinaryOperator::Multiply => l_val.wrapping_mul(r_val),
                    };
                    Ok(Value::Numerical(applied))
                },
                _ => Err(EvalError::TypeMismatch { expected: ValueKind::Numerical }),
            },
            Operator::Boolean(op) => match (l_result, r_result) {
                (Value::Numerical(l_val), Value::Numerical(r_val)) => {
                    let truth = match op {
                        BooleanOperator::Equal => l_val == r_val,
                        BooleanOperator::GreaterThan => l_val > r_val,
                        BooleanOperator::LessThan => l_val < r_val,
                    };
                    Ok(Value::Boolean(truth))
                },
                _ => Err(EvalError::TypeMismatch { expected: ValueKind::Boolean }),
            },
        }
    }
}

} // verus!
