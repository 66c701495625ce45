//! The constraint compiler: turns a token string such as `"a * b = c"` into a
//! validated expression tree.
//!
//! The scan keeps two stacks, one of operand trees and one of pending
//! operators. A new operator first *reduces*: while the top of the operator
//! stack binds at least as tightly, that operator is popped together with two
//! operands and the combined node is pushed back. A validated tree's root must
//! be a relational operator, so a constraint always produces a truth value.

pub mod evaluable;
pub mod expression;
pub mod operator;
pub mod variable;

use crate::ast::evaluable::Value;
use crate::ast::expression::{spec_eval_expression, BinaryExpression, Expression};
use crate::ast::operator::{BinaryOperator, BooleanOperator, Operator};
use crate::ast::variable::Variable;
use vstd::prelude::*;
use vstd::string::{StrSliceExecFns, StringExecFns};

verus! {

/// Why compiling a constraint string failed.
#[derive(Debug, PartialEq, Eq, Clone, Copy)]
pub enum CompileError {
    /// A letter beyond the allowed alphabet was used as a variable.
    InvalidVariable { used: char, last_allowed: char },
    /// An operator was missing an operand: the reduction step underflowed.
    MalformedExpression,
    /// The finished tree's root is not a relational operator, so the
    /// constraint could never produce a truth value.
    MissingRelationalOperator,
}

/// Case folding of the scan: upper-case ASCII letters are read as their
/// lower-case counterparts, every other character is left alone.
pub open spec fn spec_fold_case(c: char) -> char {
    if 65 <= c as int <= 90 {
        (c as int + 32) as char
    } else {
        c
    }
}

/// The last letter the alphabet bound `total_vars` allows: `'a'` for 1,
/// `'b'` for 2, and so on.
pub open spec fn spec_last_allowed(total_vars: u8) -> char {
    (96 + total_vars as int) as char
}

/// The operator a character stands for, if any.
pub open spec fn spec_operator_of_char(c: char) -> Option<Operator> {
    if c == '*' {
        Some(Operator::Binary(BinaryOperator::Multiply))
    } else if c == '+' {
        Some(Operator::Binary(BinaryOperator::Add))
    } else if c == '-' {
        Some(Operator::Binary(BinaryOperator::Subtract))
    } else if c == '=' {
        Some(Operator::Boolean(BooleanOperator::Equal))
    } else if c == '<' {
        Some(Operator::Boolean(BooleanOperator::LessThan))
    } else if c == '>' {
        Some(Operator::Boolean(BooleanOperator::GreaterThan))
    } else {
        None
    }
}

/// One combined node: the stack tops `l` and `r` under the operator `op`.
pub open spec fn spec_combine(l: Expression, op: Operator, r: Expression) -> Expression {
    Expression::BinaryExp(
        BinaryExpression { l_value: Box::new(l), operator: op, r_value: Box::new(r) },
    )
}

/// The reduction step: while the top of the operator stack binds at least as
/// tightly as `new_op`, pop it with two operands and push the combined node;
/// then push `new_op`. `None` when an operand is missing.
pub open spec fn spec_reduce(
    exprs: Seq<Expression>,
    ops: Seq<Operator>,
    new_op: Operator,
) -> Option<(Seq<Expression>, Seq<Operator>)>
    decreases ops.len(),
{
    if ops.len() > 0 && new_op.spec_precedence() <= ops.last().spec_precedence() {
        if exprs.len() >= 2 {
            let combined = spec_combine(exprs[exprs.len() - 2], ops.last(), exprs.last());
            spec_reduce(exprs.drop_last().drop_last().push(combined), ops.drop_last(), new_op)
        } else {
            None
        }
    } else {
        Some((exprs, ops.push(new_op)))
    }
}

/// How one scanned character changes the stacks: a letter within the allowed
/// alphabet or a digit becomes a leaf, an operator character reduces, and any
/// other character is silently skipped.
pub open spec fn spec_step(
    exprs: Seq<Expression>,
    ops: Seq<Operator>,
    c: char,
    total_vars: u8,
) -> Result<(Seq<Expression>, Seq<Operator>), CompileError> {
    let folded = spec_fold_case(c);
    if 97 <= folded as int <= 122 {
        if folded as int > 96 + total_vars as int {
            Err(
                CompileError::InvalidVariable {
                    used: folded,
                    last_allowed: spec_last_allowed(total_vars),
                },
            )
        } else {
            Ok((exprs.push(Expression::Variable(Variable { name: folded })), ops))
        }
    } else if 48 <= folded as int <= 57 {
        Ok((exprs.push(Expression::Value(Value::Numerical((folded as int - 48) as u8))), ops))
    } else {
        match spec_operator_of_char(folded) {
            Some(op) => match spec_reduce(exprs, ops, op) {
                Some(stacks) => Ok(stacks),
                None => Err(CompileError::MalformedExpression),
            },
            None => Ok((exprs, ops)),
        }
    }
}

/// The stacks after scanning `input` character by character, or the first
/// error raised.
pub open spec fn spec_scan(input: Seq<char>, total_vars: u8) -> Result<
    (Seq<Expression>, Seq<Operator>),
    CompileError,
>
    decreases input.len(),
{
    if input.len() == 0 {
        Ok((Seq::empty(), Seq::empty()))
    } else {
        match spec_scan(input.drop_last(), total_vars) {
            Err(e) => Err(e),
            Ok(stacks) => spec_step(stacks.0, stacks.1, input.last(), total_vars),
        }
    }
}

/// Draining the operator stack after the scan: each remaining operator is
/// popped with two operands and the combined node pushed back. `None` when an
/// operand is missing.
pub open spec fn spec_drain(exprs: Seq<Expression>, ops: Seq<Operator>) -> Option<Seq<Expression>>
    decreases ops.len(),
{
    if ops.len() == 0 {
        Some(exprs)
    } else if exprs.len() >= 2 {
        let combined = spec_combine(exprs[exprs.len() - 2], ops.last(), exprs.last());
        spec_drain(exprs.drop_last().drop_last().push(combined), ops.drop_last())
    } else {
        None
    }
}

/// Validation: the root of a finished constraint must be a relational
/// operator.
pub open spec fn spec_validate(root: Expression) -> Result<Expression, CompileError> {
    match root {
        Expression::BinaryExp(b) => if b.operator is Boolean {
            Ok(root)
        } else {
            Err(CompileError::MissingRelationalOperator)
        },
        _ => Err(CompileError::MissingRelationalOperator),
    }
}

/// What compiling `input` against an alphabet of `total_vars` variables
/// yields: scan, drain, take the topmost finished tree, validate.
pub open spec fn spec_compile(input: Seq<char>, total_vars: u8) -> Result<
    Expression,
    CompileError,
> {
    match spec_scan(input, total_vars) {
        Err(e) => Err(e),
        Ok(stacks) => match spec_drain(stacks.0, stacks.1) {
            None => Err(CompileError::MalformedExpression),
            Some(finals) => if finals.len() == 0 {
                Err(CompileError::MalformedExpression)
            } else {
                spec_validate(finals.last())
            },
        },
    }
}

/// The user-facing message of each compile error.
pub open spec fn spec_error_message(e: CompileError) -> Seq<char> {
    match e {
        CompileError::InvalidVariable { used, last_allowed } => "Invalid variable added. You may only use 'a' through '"@
            + seq![last_allowed] + "'. You used: '"@ + seq![used] + "'"@,
        CompileError::MalformedExpression => "Malformed input string"@,
        CompileError::MissingRelationalOperator => "Malformed AST, a boolean operator ('=', '<', '>') is required"@,
    }
}

/// Relies on `char::to_string`: the returned string holds exactly the one
/// character.
#[verifier::external_body]
fn char_to_string(c: char) -> (s: String)
    ensures
        s@ == seq![c],
{
    c.to_string()
}

/// The user-facing message of a compile error.
pub fn compile_error_message(e: &CompileError) -> (m: String)
    ensures
        m@ == spec_error_message(*e),
{
    match e {
        CompileError::InvalidVariable { used, last_allowed } => {
            let mut m = String::from_str("Invalid variable added. You may only use 'a' through '");
            let last_s = char_to_string(*last_allowed);
            m.append(last_s.as_str());
            m.append("'. You used: '");
            let used_s = char_to_string(*used);
            m.append(used_s.as_str());
            m.append("'");
            proof {
                assert(m@ =~= spec_error_message(*e));
            }
            m
        },
        CompileError::MalformedExpression => String::from_str("Malformed input string"),
        CompileError::MissingRelationalOperator => String::from_str(
            "Malformed AST, a boolean operator ('=', '<', '>') is required",
        ),
    }
}

/// Case folding of the scan.
fn fold_case(c: char) -> (r: char)
    ensures
        r == spec_fold_case(c),
{
    let code = c as u32;
    if 65 <= code && code <= 90 {
        ((code + 32) as u8) as char
    } else {
        c
    }
}

/// The last letter the alphabet bound allows, as a character.
fn last_allowed_char(total_vars: u8) -> (r: char)
    requires
        total_vars < 26,
    ensures
        r == spec_last_allowed(total_vars),
{
    ((96 + total_vars as u32) as u8) as char
}

/// The reduction step on the executable stacks. On success the stacks are
/// reduced and `new_op` pushed; on failure (a missing operand) the stacks are
/// left in an unspecified state and the caller abandons them.
pub fn handle_ops(
    exp_vec: &mut Vec<Expression>,
    op_vec: &mut Vec<Operator>,
    new_op: Operator,
) -> (ok: bool)
    ensures
        match spec_reduce(old(exp_vec)@, old(op_vec)@, new_op) {
            Some(stacks) => ok && final(exp_vec)@ == stacks.0 && final(op_vec)@ == stacks.1,
            None => !ok,
        },
{
    loop
        invariant
            spec_reduce(exp_vec@, op_vec@, new_op) == spec_reduce(
                old(exp_vec)@,
                old(op_vec)@,
                new_op,
            ),
        ensures
            op_vec@.len() == 0 || new_op.spec_precedence() > op_vec@.last().spec_precedence(),
            spec_reduce(exp_vec@, op_vec@, new_op) == spec_reduce(
                old(exp_vec)@,
                old(op_vec)@,
                new_op,
            ),
        decreases op_vec@.len(),
    {
        let ghost pre_exprs = exp_vec@;
        let ghost pre_ops = op_vec@;
        if op_vec.len() == 0 {
            break;
        }
        let x = op_vec.pop().unwrap();
        if new_op.precedence() <= x.precedence() {
            if exp_vec.len() >= 2 {
                let r_value = exp_vec.pop().unwrap();
                let l_value = exp_vec.pop().unwrap();
                exp_vec.push(
                    Expression::BinaryExp(
                        BinaryExpression {
                            l_value: Box::new(l_value),
                            operator: x,
                            r_value: Box::new(r_value),
                        },
                    ),
                );
                proof {
                    assert(exp_vec@ =~= pre_exprs.drop_last().drop_last().push(
                        spec_combine(pre_exprs[pre_exprs.len() - 2], pre_ops.last(), pre_exprs.last()),
                    ));
                }
            } else {
                proof {
                    assert(spec_reduce(pre_exprs, pre_ops, new_op) is None);
                }
                return false;
            }
        } else {
            op_vec.push(x);
            proof {
                assert(op_vec@ =~= pre_ops);
            }
            break;
        }
    }
    op_vec.push(new_op);
    true
}

/// Compiles a constraint string against an alphabet of `total_vars`
/// variables into a validated expression tree.
pub fn compile(input: &str, total_vars: u8) -> (r: Result<Expression, CompileError>)
    ensures
        r == spec_compile(input@, total_vars),
{
    let mut exp_vec: Vec<Expression> = Vec::new();
    let mut op_vec: Vec<Operator> = Vec::new();
    let n = input.unicode_len();
    let mut idx: usize = 0;
    proof {
        assert(input@.subrange(0, 0) =~= Seq::<char>::empty());
    }
    while idx < n
        invariant
            idx <= n,
            n == input@.len(),
            spec_scan(input@.subrange(0, idx as int), total_vars) == Ok::<
                (Seq<Expression>, Seq<Operator>),
                CompileError,
            >((exp_vec@, op_vec@)),
        decreases n - idx,
    {
        let ghost prefix = input@.subrange(0, idx as int);
        proof {
            assert(input@.subrange(0, idx + 1).drop_last() =~= prefix);
            assert(input@.subrange(0, idx + 1).last() == input@[idx as int]);
        }
        let c = input.get_char(idx);
        let folded = fold_case(c);
        let code = folded as u32;
        if 97 <= code && code <= 122 {
            if code > 96 + total_vars as u32 {
                let last = last_allowed_char(total_vars);
                let err = CompileError::InvalidVariable { used: folded, last_allowed: last };
                proof {
                    assert(spec_scan(input@.subrange(0, idx + 1), total_vars) == Err::<
                        (Seq<Expression>, Seq<Operator>),
                        CompileError,
                    >(err));
                    lemma_scan_error_persists(input@, idx + 1, total_vars);
                }
                return Err(err);
            }
            exp_vec.push(Expression::Variable(Variable { name: folded }));
        } else if 48 <= code && code <= 57 {
            exp_vec.push(Expression::Value(Value::Numerical((code - 48) as u8)));
        } else {
            let op_found: Option<Operator> = if folded == '*' {
                Some(Operator::Binary(BinaryOperator::Multiply))
            } else if folded == '+' {
                Some(Operator::Binary(BinaryOperator::Add))
            } else if folded == '-' {
                Some(Operator::Binary(BinaryOperator::Subtract))
            } else if folded == '=' {
                Some(Operator::Boolean(BooleanOperator::Equal))
            } else if folded == '<' {
                Some(Operator::Boolean(BooleanOperator::LessThan))
            } else if folded == '>' {
                Some(Operator::Boolean(BooleanOperator::GreaterThan))
            } else {
                None
            };
            if let Some(op) = op_found {
                if !handle_ops(&mut exp_vec, &mut op_vec, op) {
                    proof {
                        assert(spec_scan(input@.subrange(0, idx + 1), total_vars) == Err::<
                            (Seq<Expression>, Seq<Operator>),
                            CompileError,
                        >(CompileError::MalformedExpression));
                        lemma_scan_error_persists(input@, idx + 1, total_vars);
                    }
                    return Err(CompileError::MalformedExpression);
                }
            }
        }
        proof {
            assert(spec_scan(input@.subrange(0, idx + 1), total_vars) == Ok::<
                (Seq<Expression>, Seq<Operator>),
                CompileError,
            >((exp_vec@, op_vec@)));
        }
        idx = idx + 1;
    }
    proof {
        assert(input@.subrange(0, n as int) =~= input@);
    }
    let ghost scanned_exprs = exp_vec@;
    let ghost scanned_ops = op_vec@;
    loop
        invariant
            spec_scan(input@, total_vars) == Ok::<(Seq<Expression>, Seq<Operator>), CompileError>(
                (scanned_exprs, scanned_ops),
            ),
            spec_drain(exp_vec@, op_vec@) == spec_drain(scanned_exprs, scanned_ops),
        ensures
            op_vec@.len() == 0,
            spec_drain(exp_vec@, op_vec@) == spec_drain(scanned_exprs, scanned_ops),
        decreases op_vec@.len(),
    {
        let ghost pre_exprs = exp_vec@;
        let ghost pre_ops = op_vec@;
        if op_vec.len() == 0 {
            break;
        }
        let op = op_vec.pop().unwrap();
        if exp_vec.len() >= 2 {
            let r_value = exp_vec.pop().unwrap();
            let l_value = exp_vec.pop().unwrap();
            exp_vec.push(
                Expression::BinaryExp(
                    BinaryExpression {
                        l_value: Box::new(l_value),
                        operator: op,
                        r_value: Box::new(r_value),
                    },
                ),
            );
            proof {
                assert(exp_vec@ =~= pre_exprs.drop_last().drop_last().push(
                    spec_combine(pre_exprs[pre_exprs.len() - 2], pre_ops.last(), pre_exprs.last()),
                ));
            }
        } else {
            proof {
                assert(spec_drain(pre_exprs, pre_ops) is None);
            }
            return Err(CompileError::MalformedExpression);
        }
    }
    match exp_vec.pop() {
        None => Err(CompileError::MalformedExpression),
        Some(root) => {
            match &root {
                Expression::BinaryExp(b) => {
                    if let Operator::Boolean(_) = b.operator {
                        Ok(root)
                    } else {
                        Err(CompileError::MissingRelationalOperator)
                    }
                },
                _ => Err(CompileError::MissingRelationalOperator),
            }
        },
    }
}

/// Checks that a finished tree's root is a relational operator; any other
/// root could never produce a truth value.
pub fn validate_ast(ast: Box<Expression>) -> (r: Result<Box<Expression>, String>)
    ensures
        match spec_validate(*ast) {
            Ok(e) => r matches Ok(b) && *b == e,
            Err(ce) => r matches Err(m) && m@ == spec_error_message(ce),
        },
{
    let valid = match &*ast {
        Expression::BinaryExp(b) => match b.operator {
            Operator::Boolean(_) => true,
            _ => false,
        },
        _ => false,
    };
    if valid {
        Ok(ast)
    } else {
        Err(compile_error_message(&CompileError::MissingRelationalOperator))
    }
}

/// Compiles a constraint string into a validated expression tree, reporting
/// failures as their user-facing messages.
pub fn convert_string_to_ast(input: &str, total_vars: u8) -> (r: Result<Box<Expression>, String>)
    ensures
        spec_compile(input@, total_vars) matches Ok(e) ==> r matches Ok(b) && *b == e,
        spec_compile(input@, total_vars) matches Err(ce) ==> r matches Err(m) && m@
            == spec_error_message(ce),
{
    match compile(input, total_vars) {
        Ok(e) => Ok(Box::new(e)),
        Err(ce) => Err(compile_error_message(&ce)),
    }
}

/// Once the scan of a prefix has failed, the scan of the whole input fails
/// with the same error.
proof fn lemma_scan_error_persists(input: Seq<char>, i: int, total_vars: u8)
    requires
        0 <= i <= input.len(),
        spec_scan(input.subrange(0, i), total_vars) is Err,
    ensures
        spec_scan(input, total_vars) == spec_scan(input.subrange(0, i), total_vars),
    decreases input.len() - i,
{
    if i == input.len() {
        assert(input.subrange(0, i) =~= input);
    } else {
        assert(input.subrange(0, i + 1).drop_last() =~= input.subrange(0, i));
        lemma_scan_error_persists(input, i + 1, total_vars);
    }
}

/// Law: a compiled constraint evaluates to a truth value or a typed error,
/// for every candidate; its root is relational, so it never yields a number.
pub proof fn lemma_compiled_constraint_yields_boolean(
    input: Seq<char>,
    total_vars: u8,
    tree: Expression,
    candidate: Seq<u8>,
)
    requires
        spec_compile(input, total_vars) == Ok::<Expression, CompileError>(tree),
    ensures
        spec_eval_expression(tree, candidate) matches Ok(v) ==> v is Boolean,
{
}

} // verus!
