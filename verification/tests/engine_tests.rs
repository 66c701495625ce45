use passcode_cracker::ast::evaluable::{EvalError, Evaluable, Value, ValueKind};
use passcode_cracker::ast::variable::Variable;
use passcode_cracker::ast::{compile, convert_string_to_ast, validate_ast, CompileError};
use passcode_cracker::ast::expression::Expression;
use passcode_cracker::{Passcode, RuleList};

#[test]
fn fresh_engine_counts() {
    let mut passcode = Passcode::new(2);
    assert_eq!(passcode.solutions_left(), 100);
    assert!(passcode.solution_exists());
    assert!(passcode.solution().is_err());
    assert_eq!(passcode.eliminate_combinations(), 0);
}

#[test]
fn rule_prunes_candidates() {
    let mut passcode = Passcode::new(2);
    assert_eq!(passcode.eliminate_combinations(), 0);
    passcode.add_rule("2 + 2 = a").unwrap();
    assert_eq!(passcode.eliminate_combinations(), 90);
    assert_eq!(passcode.solutions_left(), 10);
}

#[test]
fn end_to_end_four_digits() {
    let mut passcode = Passcode::new(4);
    passcode.add_rule("a + b + c = d").unwrap();
    passcode.add_rule("c = 3").unwrap();
    passcode.add_rule("a = 1").unwrap();
    assert_eq!(passcode.eliminate_combinations(), 10000 - 6);

    // brute-force reference: a = 1, c = 3, (a + b) + c = d over digits
    let mut expected: Vec<Vec<u8>> = Vec::new();
    for a in 0..10u8 {
        for b in 0..10u8 {
            for c in 0..10u8 {
                for d in 0..10u8 {
                    if a == 1 && c == 3 && a.wrapping_add(b).wrapping_add(c) == d {
                        expected.push(vec![a, b, c, d]);
                    }
                }
            }
        }
    }
    assert_eq!(expected.len(), 6);
    assert_eq!(passcode.possible_values, expected);
    assert!(passcode.solution().is_err());

    passcode.add_rule("b = 2").unwrap();
    assert_eq!(passcode.eliminate_combinations(), 5);
    assert_eq!(passcode.solution(), Ok(&vec![1, 2, 3, 6]));
}

#[test]
fn eliminate_twice_removes_nothing() {
    let mut passcode = Passcode::new(3);
    passcode.add_rule("a * b = c").unwrap();
    let first = passcode.eliminate_combinations();
    assert!(first > 0);
    assert_eq!(passcode.eliminate_combinations(), 0);
    assert_eq!(passcode.eliminate_combinations(), 0);
}

#[test]
fn variable_beyond_alphabet_is_rejected() {
    let mut passcode = Passcode::new(4);
    let result = passcode.add_rule("e = 1");
    assert_eq!(
        result,
        Err(String::from(
            "Invalid variable added. You may only use 'a' through 'd'. You used: 'e'"
        ))
    );
    // the rejected rule eliminates nothing
    assert_eq!(passcode.eliminate_combinations(), 0);
    assert_eq!(passcode.solutions_left(), 10000);
}

#[test]
fn malformed_rule_is_rejected() {
    let mut passcode = Passcode::new(2);
    assert_eq!(
        passcode.add_rule("a + + b = a"),
        Err(String::from("Malformed input string"))
    );
    assert_eq!(
        passcode.add_rule("a + b"),
        Err(String::from(
            "Malformed AST, a boolean operator ('=', '<', '>') is required"
        ))
    );
}

#[test]
fn typed_compile_errors() {
    assert_eq!(
        compile("a + b", 4),
        Err(CompileError::MissingRelationalOperator)
    );
    assert_eq!(
        compile("e = 1", 4),
        Err(CompileError::InvalidVariable { used: 'e', last_allowed: 'd' })
    );
    assert_eq!(compile("+ =", 2), Err(CompileError::MalformedExpression));
    assert_eq!(compile("", 2), Err(CompileError::MalformedExpression));
}

#[test]
fn case_folding_in_rules() {
    assert_eq!(
        convert_string_to_ast("A = B", 4),
        convert_string_to_ast("a = b", 4)
    );
}

#[test]
fn relational_rules_narrow_to_solution() {
    let mut passcode = Passcode::new(1);
    passcode.add_rule("a > 7").unwrap();
    assert_eq!(passcode.eliminate_combinations(), 8);
    passcode.add_rule("a < 9").unwrap();
    assert_eq!(passcode.eliminate_combinations(), 1);
    assert_eq!(passcode.solution(), Ok(&vec![8]));
    assert!(passcode.solution_exists());
}

#[test]
fn unsatisfiable_rule_empties_space() {
    let mut passcode = Passcode::new(1);
    // ((9 * 9) * 9) wraps to 217, which no digit equals
    passcode.add_rule("9 * 9 * 9 = a").unwrap();
    assert_eq!(passcode.eliminate_combinations(), 10);
    assert_eq!(passcode.solutions_left(), 0);
    assert!(!passcode.solution_exists());
    assert_eq!(passcode.solution(), Err("Nope"));
}

#[test]
fn arithmetic_wraps_at_byte_width() {
    let tree = convert_string_to_ast("5 - 7 = a", 1).unwrap();
    // 5 - 7 wraps around to 254
    assert_eq!(tree.evaluate(&vec![254]), Ok(Value::Boolean(true)));
    assert_eq!(tree.evaluate(&vec![3]), Ok(Value::Boolean(false)));
}

#[test]
fn nested_relation_fails_open() {
    let tree = convert_string_to_ast("a = b = c", 3).unwrap();
    // the inner relation yields a boolean, which the outer relation rejects
    assert_eq!(
        tree.evaluate(&vec![1, 1, 2]),
        Err(EvalError::TypeMismatch { expected: ValueKind::Boolean })
    );
    let mut passcode = Passcode::new(3);
    passcode.add_rule("a = b = c").unwrap();
    // every candidate errors, so every candidate is kept
    assert_eq!(passcode.eliminate_combinations(), 0);
    assert_eq!(passcode.solutions_left(), 1000);
}

#[test]
fn variable_without_slot_reports_out_of_range() {
    let var = Variable { name: 'd' };
    assert_eq!(var.evaluate(&vec![1, 2]), Err(EvalError::VariableOutOfRange));
    let odd = Variable { name: '?' };
    assert_eq!(odd.evaluate(&vec![1, 2]), Err(EvalError::VariableOutOfRange));
    let ok = Variable { name: 'b' };
    assert_eq!(ok.evaluate(&vec![1, 2]), Ok(Value::Numerical(2)));
}

#[test]
fn rule_list_runs_rules_in_order() {
    let mut rules = RuleList::new();
    let empty_pass = rules.run_rules(&vec![1, 2]);
    assert!(empty_pass);
    rules.add_rule("a = b", 2).unwrap();
    assert!(rules.run_rules(&vec![7, 7]));
    assert!(!rules.run_rules(&vec![1, 2]));
    assert!(rules.add_rule("z = 1", 2).is_err());
    assert_eq!(rules.rules.len(), 1);
}

#[test]
fn validate_ast_requires_relational_root() {
    let leaf = Box::new(Expression::Variable(Variable { name: 'a' }));
    assert_eq!(
        validate_ast(leaf),
        Err(String::from(
            "Malformed AST, a boolean operator ('=', '<', '>') is required"
        ))
    );
    let tree = convert_string_to_ast("a = b", 2).unwrap();
    assert_eq!(validate_ast(tree), convert_string_to_ast("a = b", 2));
}

#[test]
fn whitespace_and_unknown_characters_are_skipped() {
    assert_eq!(
        convert_string_to_ast("  a=b  ", 4),
        convert_string_to_ast("a ? = _ b!", 4)
    );
}
