//! Unit tests for the value operations: addition, comparisons, and
//! stringification.

use enforce::parser::node::{EvalError, Node};

#[test]
fn add_int_int() {
    assert_eq!(Node::Int(2).add(&Node::Int(3)), Ok(Node::Int(5)));
}

#[test]
fn add_wraps_at_the_edges() {
    assert_eq!(
        Node::Int(i32::MAX).add(&Node::Int(1)),
        Ok(Node::Int(i32::MIN))
    );
    assert_eq!(
        Node::Int(i32::MIN).add(&Node::Int(-1)),
        Ok(Node::Int(i32::MAX))
    );
}

#[test]
fn add_concatenates_with_strings() {
    assert_eq!(
        Node::Str("a".to_string()).add(&Node::Int(1)),
        Ok(Node::Str("a1".to_string()))
    );
    assert_eq!(
        Node::Int(1).add(&Node::Str("a".to_string())),
        Ok(Node::Str("1a".to_string()))
    );
    assert_eq!(
        Node::Str("ab".to_string()).add(&Node::Str("cd".to_string())),
        Ok(Node::Str("abcd".to_string()))
    );
    assert_eq!(
        Node::Int(-7).add(&Node::Str("x".to_string())),
        Ok(Node::Str("-7x".to_string()))
    );
}

#[test]
fn add_rejects_booleans() {
    assert_eq!(
        Node::Bool(true).add(&Node::Int(1)),
        Err(EvalError::TypeMismatch)
    );
    assert_eq!(
        Node::Str("a".to_string()).add(&Node::Bool(false)),
        Err(EvalError::TypeMismatch)
    );
}

#[test]
fn equality_coerces_booleans() {
    assert_eq!(Node::Int(3)._eq(&Node::Int(3)), Ok(true));
    assert_eq!(Node::Int(3)._eq(&Node::Int(4)), Ok(false));
    assert_eq!(Node::Int(1)._eq(&Node::Bool(true)), Ok(true));
    assert_eq!(Node::Int(0)._eq(&Node::Bool(false)), Ok(true));
    assert_eq!(Node::Bool(true)._eq(&Node::Int(0)), Ok(false));
    assert_eq!(
        Node::Str("a".to_string())._eq(&Node::Str("a".to_string())),
        Err(EvalError::TypeMismatch)
    );
    assert_eq!(
        Node::Bool(true)._eq(&Node::Bool(true)),
        Err(EvalError::TypeMismatch)
    );
}

#[test]
fn ordering_coerces_booleans() {
    assert_eq!(Node::Int(4)._gt(&Node::Int(3)), Ok(true));
    assert_eq!(Node::Int(3)._lt(&Node::Int(4)), Ok(true));
    assert_eq!(Node::Int(2)._gt(&Node::Bool(true)), Ok(true));
    assert_eq!(Node::Bool(true)._gt(&Node::Int(0)), Ok(true));
    assert_eq!(Node::Int(0)._lt(&Node::Bool(true)), Ok(true));
    assert_eq!(Node::Bool(false)._lt(&Node::Int(1)), Ok(true));
    assert_eq!(
        Node::Str("a".to_string())._gt(&Node::Int(1)),
        Err(EvalError::TypeMismatch)
    );
}

#[test]
fn stringify_scalars_exactly() {
    assert_eq!(
        Node::Str("hi".to_string()).stringify(),
        Ok("hi".to_string())
    );
    assert_eq!(Node::Int(0).stringify(), Ok("0".to_string()));
    assert_eq!(Node::Int(1048576).stringify(), Ok("1048576".to_string()));
    assert_eq!(Node::Int(-42).stringify(), Ok("-42".to_string()));
    assert_eq!(
        Node::Int(i32::MIN).stringify(),
        Ok("-2147483648".to_string())
    );
    assert_eq!(Node::Bool(true).stringify(), Ok("true".to_string()));
    assert_eq!(Node::Bool(false).stringify(), Ok("false".to_string()));
}

#[test]
fn stringify_rejects_non_scalars() {
    assert_eq!(
        Node::Ident("x".to_string()).stringify(),
        Err(EvalError::NotPrintable)
    );
    assert_eq!(Node::Empty.stringify(), Err(EvalError::NotPrintable));
}
