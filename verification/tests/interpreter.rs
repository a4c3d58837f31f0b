//! End-to-end evaluator tests: declarations, assignment, printing,
//! conditionals, chains, and every fatal error.

use enforce::executer::{execute, Heap};
use enforce::parser::node::{
    AssignmentOperator, ComparisonOperator, EvalError, LogicalOperator, Node, eType,
};

fn decl_int(name: &str, v: i32) -> Node {
    Node::Assignment {
        etype: Some(eType::Int),
        ident: name.to_string(),
        operator: AssignmentOperator::Equal,
        value: Box::new(Node::Int(v)),
    }
}

fn decl(name: &str, tag: eType, value: Node) -> Node {
    Node::Assignment {
        etype: Some(tag),
        ident: name.to_string(),
        operator: AssignmentOperator::Equal,
        value: Box::new(value),
    }
}

fn assign(name: &str, value: Node) -> Node {
    Node::Assignment {
        etype: None,
        ident: name.to_string(),
        operator: AssignmentOperator::Equal,
        value: Box::new(value),
    }
}

fn add_assign(name: &str, value: Node) -> Node {
    Node::Assignment {
        etype: None,
        ident: name.to_string(),
        operator: AssignmentOperator::AddEqual,
        value: Box::new(value),
    }
}

fn print_ident(name: &str) -> Node {
    Node::Call {
        ident: "Print".to_string(),
        args: vec![Node::Ident(name.to_string())],
    }
}

fn print_value(value: Node) -> Node {
    Node::Call {
        ident: "Print".to_string(),
        args: vec![value],
    }
}

fn comparison(lhs: Node, op: ComparisonOperator, rhs: Node) -> Node {
    Node::ComparisonExpression {
        lhs: Box::new(lhs),
        rhs: Some((op, Box::new(rhs))),
    }
}

fn truthy(value: Node) -> Node {
    Node::ComparisonExpression {
        lhs: Box::new(value),
        rhs: None,
    }
}

fn term(expr: Node) -> Node {
    Node::LogicVal {
        inverted: false,
        expr: Box::new(expr),
    }
}

fn chain(checks: Vec<(LogicalOperator, Node)>) -> Node {
    Node::LogicalExpression(
        checks
            .into_iter()
            .map(|(op, t)| (op, Box::new(t)))
            .collect(),
    )
}

fn eif(cond: Node, body: Vec<Node>) -> Node {
    Node::eIf(Box::new(cond), body)
}

#[test]
fn declare_then_print_renders_value() {
    let out = execute(vec![decl_int("x", 5), print_ident("x")]).unwrap();
    assert_eq!(out, vec!["5".to_string()]);
}

#[test]
fn declare_then_print_string_and_bool() {
    let out = execute(vec![
        decl("s", eType::String, Node::Str("hi".to_string())),
        print_ident("s"),
        decl("b", eType::Bool, Node::Bool(true)),
        print_ident("b"),
        decl("c", eType::Bool, Node::Bool(false)),
        print_ident("c"),
    ])
    .unwrap();
    assert_eq!(
        out,
        vec!["hi".to_string(), "true".to_string(), "false".to_string()]
    );
}

#[test]
fn compound_assignment_adds() {
    let out = execute(vec![
        decl_int("x", 5),
        add_assign("x", Node::Int(3)),
        print_ident("x"),
    ])
    .unwrap();
    assert_eq!(out, vec!["8".to_string()]);
}

#[test]
fn compound_assignment_on_undeclared_fails() {
    let r = execute(vec![add_assign("x", Node::Int(3))]);
    assert_eq!(r, Err(EvalError::UndeclaredCompoundAssignment));
}

#[test]
fn redeclaration_overwrites_without_error() {
    let out = execute(vec![decl_int("x", 1), decl_int("x", 2), print_ident("x")]).unwrap();
    assert_eq!(out, vec!["2".to_string()]);
}

#[test]
fn assignment_to_undeclared_fails() {
    let r = execute(vec![assign("x", Node::Int(1))]);
    assert_eq!(r, Err(EvalError::UndeclaredAssignment));
}

#[test]
fn chain_is_left_to_right() {
    // A true, a false and a true term joined as t && f || t evaluate strictly
    // left to right: ((true && false) || true) = true. Bare boolean literals
    // are no valid comparison operands, so each term is an equality.
    let eq = |a: i32, b: i32| comparison(Node::Int(a), ComparisonOperator::EqualEqual, Node::Int(b));
    let cond = chain(vec![
        (LogicalOperator::AND, term(eq(1, 1))),
        (LogicalOperator::AND, term(eq(1, 2))),
        (LogicalOperator::OR, term(eq(2, 2))),
    ]);
    let out = execute(vec![eif(cond, vec![print_value(Node::Int(1))])]).unwrap();
    assert_eq!(out, vec!["1".to_string()]);
}

#[test]
fn if_true_runs_body_and_mutates_outer_scope() {
    let cond = chain(vec![(
        LogicalOperator::AND,
        term(comparison(
            Node::Ident("x".to_string()),
            ComparisonOperator::GreaterThan,
            Node::Int(3),
        )),
    )]);
    let out = execute(vec![
        decl_int("x", 5),
        eif(cond, vec![assign("x", Node::Int(9))]),
        print_ident("x"),
    ])
    .unwrap();
    assert_eq!(out, vec!["9".to_string()]);
}

#[test]
fn if_with_greater_than_prints() {
    let cond = chain(vec![(
        LogicalOperator::AND,
        term(comparison(
            Node::Ident("x".to_string()),
            ComparisonOperator::GreaterThan,
            Node::Int(3),
        )),
    )]);
    let out = execute(vec![decl_int("x", 5), eif(cond, vec![print_ident("x")])]).unwrap();
    assert_eq!(out, vec!["5".to_string()]);
}

#[test]
fn if_false_produces_no_output() {
    let cond = chain(vec![(
        LogicalOperator::AND,
        term(comparison(
            Node::Ident("x".to_string()),
            ComparisonOperator::GreaterThan,
            Node::Int(10),
        )),
    )]);
    let out = execute(vec![decl_int("x", 5), eif(cond, vec![print_ident("x")])]).unwrap();
    assert_eq!(out, Vec::<String>::new());
}

#[test]
fn string_int_concatenation_both_ways() {
    // Print("a" + 1) gives a1; Print(1 + "a") gives 1a.
    let out = execute(vec![
        decl(
            "x",
            eType::String,
            Node::Str("a".to_string()),
        ),
        add_assign("x", Node::Int(1)),
        print_ident("x"),
        decl_int("y", 1),
        add_assign("y", Node::Str("a".to_string())),
        print_ident("y"),
    ])
    .unwrap();
    assert_eq!(out, vec!["a1".to_string(), "1a".to_string()]);
}

#[test]
fn undefined_function_fails() {
    let r = execute(vec![Node::Call {
        ident: "Foo".to_string(),
        args: vec![],
    }]);
    assert_eq!(r, Err(EvalError::UndefinedFunction));
}

#[test]
fn print_arity_zero_fails() {
    let r = execute(vec![Node::Call {
        ident: "Print".to_string(),
        args: vec![],
    }]);
    assert_eq!(r, Err(EvalError::ArityError));
}

#[test]
fn print_arity_two_fails() {
    let r = execute(vec![Node::Call {
        ident: "Print".to_string(),
        args: vec![Node::Int(1), Node::Int(2)],
    }]);
    assert_eq!(r, Err(EvalError::ArityError));
}

#[test]
fn print_of_undefined_variable_fails() {
    let r = execute(vec![print_ident("x")]);
    assert_eq!(r, Err(EvalError::UndefinedVariable));
}

#[test]
fn call_through_variable_binding_fails() {
    let r = execute(vec![
        decl_int("f", 1),
        Node::Call {
            ident: "f".to_string(),
            args: vec![],
        },
    ]);
    assert_eq!(r, Err(EvalError::UnsupportedCall));
}

#[test]
fn malformed_condition_fails() {
    let r = execute(vec![eif(Node::Bool(true), vec![])]);
    assert_eq!(r, Err(EvalError::MalformedCondition));
}

#[test]
fn malformed_logical_term_fails() {
    let cond = chain(vec![(LogicalOperator::AND, Node::Bool(true))]);
    let r = execute(vec![eif(cond, vec![])]);
    assert_eq!(r, Err(EvalError::MalformedLogicalTerm));
}

#[test]
fn unsupported_comparison_operator_fails() {
    let cond = chain(vec![(
        LogicalOperator::AND,
        term(comparison(
            Node::Int(1),
            ComparisonOperator::GreaterThanEqualTo,
            Node::Int(1),
        )),
    )]);
    let r = execute(vec![eif(cond, vec![])]);
    assert_eq!(r, Err(EvalError::UnsupportedOperator));
}

#[test]
fn type_mismatch_in_addition_fails() {
    let r = execute(vec![decl_int("x", 1), add_assign("x", Node::Bool(true))]);
    assert_eq!(r, Err(EvalError::TypeMismatch));
}

#[test]
fn type_mismatch_in_comparison_fails() {
    let cond = chain(vec![(
        LogicalOperator::AND,
        term(comparison(
            Node::Str("a".to_string()),
            ComparisonOperator::EqualEqual,
            Node::Str("a".to_string()),
        )),
    )]);
    let r = execute(vec![eif(cond, vec![])]);
    assert_eq!(r, Err(EvalError::TypeMismatch));
}

#[test]
fn printing_a_stored_identifier_node_fails() {
    // `int x = y` stores the raw identifier node; printing x is not printable.
    let r = execute(vec![
        decl("x", eType::Int, Node::Ident("y".to_string())),
        print_ident("x"),
    ]);
    assert_eq!(r, Err(EvalError::NotPrintable));
}

#[test]
fn unsupported_statement_fails() {
    let r = execute(vec![Node::Bool(true)]);
    assert_eq!(r, Err(EvalError::UnsupportedStatement));
}

#[test]
fn empty_statement_and_empty_program() {
    assert_eq!(execute(vec![]).unwrap(), Vec::<String>::new());
    assert_eq!(execute(vec![Node::Empty]).unwrap(), Vec::<String>::new());
}

#[test]
fn integer_addition_wraps() {
    let out = execute(vec![
        decl_int("x", i32::MAX),
        add_assign("x", Node::Int(1)),
        print_ident("x"),
    ])
    .unwrap();
    assert_eq!(out, vec!["-2147483648".to_string()]);
}

#[test]
fn negative_numbers_print_with_sign() {
    let out = execute(vec![decl_int("x", -42), print_ident("x")]).unwrap();
    assert_eq!(out, vec!["-42".to_string()]);
}

#[test]
fn bool_coerces_to_int_in_comparisons() {
    // 1 == true holds; 0 < true holds; 2 > true holds.
    let cond = chain(vec![
        (
            LogicalOperator::AND,
            term(comparison(
                Node::Int(1),
                ComparisonOperator::EqualEqual,
                Node::Bool(true),
            )),
        ),
        (
            LogicalOperator::AND,
            term(comparison(
                Node::Int(0),
                ComparisonOperator::LessThan,
                Node::Bool(true),
            )),
        ),
        (
            LogicalOperator::AND,
            term(comparison(
                Node::Int(2),
                ComparisonOperator::GreaterThan,
                Node::Bool(true),
            )),
        ),
    ]);
    let out = execute(vec![eif(cond, vec![print_value(Node::Int(7))])]).unwrap();
    assert_eq!(out, vec!["7".to_string()]);
}

#[test]
fn truthiness_check_without_rhs() {
    // A bare operand is checked against boolean true; an integer 1 passes
    // (booleans coerce to 0 or 1) and an integer 0 does not.
    let cond = |name: &str| {
        chain(vec![(
            LogicalOperator::AND,
            term(truthy(Node::Ident(name.to_string()))),
        )])
    };
    let out = execute(vec![
        decl_int("b", 1),
        eif(cond("b"), vec![print_value(Node::Int(1))]),
        decl_int("z", 0),
        eif(cond("z"), vec![print_value(Node::Int(2))]),
    ])
    .unwrap();
    assert_eq!(out, vec!["1".to_string()]);
}

#[test]
fn short_circuit_skips_bad_terms() {
    // false && (string comparison) carries false forward without evaluating
    // the mismatched term.
    let cond = chain(vec![
        (
            LogicalOperator::AND,
            term(comparison(
                Node::Int(1),
                ComparisonOperator::EqualEqual,
                Node::Int(2),
            )),
        ),
        (
            LogicalOperator::AND,
            term(comparison(
                Node::Str("a".to_string()),
                ComparisonOperator::EqualEqual,
                Node::Str("b".to_string()),
            )),
        ),
    ]);
    let out = execute(vec![eif(cond, vec![print_value(Node::Int(1))])]).unwrap();
    assert_eq!(out, Vec::<String>::new());
}

#[test]
fn heap_scopes_shadow_and_pop() {
    let mut heap = Heap::new();
    heap.set_variable("x", Box::new(Node::Int(1)), true).unwrap();
    heap.lower();
    heap.set_variable("x", Box::new(Node::Int(2)), true).unwrap();
    assert_eq!(heap.get_variable("x"), Some(&Node::Int(2)));
    heap.higher();
    assert_eq!(heap.get_variable("x"), Some(&Node::Int(1)));
}

#[test]
fn heap_update_rebinds_outer_scope() {
    let mut heap = Heap::new();
    heap.set_variable("x", Box::new(Node::Int(1)), true).unwrap();
    heap.lower();
    heap.set_variable("x", Box::new(Node::Int(5)), false).unwrap();
    heap.higher();
    assert_eq!(heap.get_variable("x"), Some(&Node::Int(5)));
}

#[test]
fn heap_update_unknown_name_fails() {
    let mut heap = Heap::new();
    assert_eq!(
        heap.set_variable("x", Box::new(Node::Int(1)), false),
        Err(())
    );
    assert_eq!(heap.get_variable("x"), None);
}
