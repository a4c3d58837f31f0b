//! The typed abstract syntax tree and its value operations.
//!
//! Every executable node has a mathematical mirror ([`NodeV`]) built from
//! `Seq` and `int`; contracts throughout the crate speak of that mirror.

use crate::text::{bool_text, concat_text, i32_text, int_text, push_i32_text, str_eq, string_chars};
use vstd::prelude::*;

verus! {

/// Comparison operators as they appear in source text.
#[derive(Clone, Copy, Debug, PartialEq, Eq, Structural)]
pub enum ComparisonOperator {
    GreaterThan,
    LessThan,
    GreaterThanEqualTo,
    LessThanEqualTo,
    EqualEqual,
    NotEqual,
}

/// The comparison operator a token denotes, if any.
pub open spec fn comparison_op_of(s: Seq<char>) -> Option<ComparisonOperator> {
    if s == ">"@ {
        Option::Some(ComparisonOperator::GreaterThan)
    } else if s == "<"@ {
        Option::Some(ComparisonOperator::LessThan)
    } else if s == ">="@ {
        Option::Some(ComparisonOperator::GreaterThanEqualTo)
    } else if s == "<="@ {
        Option::Some(ComparisonOperator::LessThanEqualTo)
    } else if s == "=="@ {
        Option::Some(ComparisonOperator::EqualEqual)
    } else if s == "!="@ {
        Option::Some(ComparisonOperator::NotEqual)
    } else {
        Option::None
    }
}

impl ComparisonOperator {
    /// Reads the operator from its token; any other token is unrecognized.
    pub fn from_token(s: &str) -> (r: Option<Self>)
        ensures
            r == comparison_op_of(s@),
    {
        if str_eq(s, ">") {
            Option::Some(Self::GreaterThan)
        } else if str_eq(s, "<") {
            Option::Some(Self::LessThan)
        } else if str_eq(s, ">=") {
            Option::Some(Self::GreaterThanEqualTo)
        } else if str_eq(s, "<=") {
            Option::Some(Self::LessThanEqualTo)
        } else if str_eq(s, "==") {
            Option::Some(Self::EqualEqual)
        } else if str_eq(s, "!=") {
            Option::Some(Self::NotEqual)
        } else {
            Option::None
        }
    }
}

/// Type tags that may prefix a declaration.
#[derive(Clone, Copy, Debug, PartialEq, Eq, Structural)]
pub enum eType {
    Int,
    String,
    Bool,
}

/// The type tag a token denotes, if any.
pub open spec fn etype_of(s: Seq<char>) -> Option<eType> {
    if s == "int"@ {
        Option::Some(eType::Int)
    } else if s == "string"@ {
        Option::Some(eType::String)
    } else if s == "bool"@ {
        Option::Some(eType::Bool)
    } else {
        Option::None
    }
}

impl eType {
    /// Reads the type tag from its token; any other token is unrecognized.
    pub fn from_token(s: &str) -> (r: Option<Self>)
        ensures
            r == etype_of(s@),
    {
        if str_eq(s, "int") {
            Option::Some(Self::Int)
        } else if str_eq(s, "string") {
            Option::Some(Self::String)
        } else if str_eq(s, "bool") {
            Option::Some(Self::Bool)
        } else {
            Option::None
        }
    }
}

/// Assignment operators: plain binding and compound addition.
#[derive(Clone, Copy, Debug, PartialEq, Eq, Structural)]
pub enum AssignmentOperator {
    Equal,
    AddEqual,
}

/// The assignment operator a token denotes, if any.
pub open spec fn assignment_op_of(s: Seq<char>) -> Option<AssignmentOperator> {
    if s == "="@ {
        Option::Some(AssignmentOperator::Equal)
    } else if s == "+="@ {
        Option::Some(AssignmentOperator::AddEqual)
    } else {
        Option::None
    }
}

impl AssignmentOperator {
    /// Reads the operator from its token; any other token is unrecognized.
    pub fn from_token(s: &str) -> (r: Option<Self>)
        ensures
            r == assignment_op_of(s@),
    {
        if str_eq(s, "=") {
            Option::Some(Self::Equal)
        } else if str_eq(s, "+=") {
            Option::Some(Self::AddEqual)
        } else {
            Option::None
        }
    }
}

/// Logical connectives joining the terms of a chain.
#[derive(Clone, Copy, Debug, PartialEq, Eq, Structural)]
pub enum LogicalOperator {
    OR,
    AND,
}

/// The logical operator a token denotes, if any.
pub open spec fn logical_op_of(s: Seq<char>) -> Option<LogicalOperator> {
    if s == "||"@ {
        Option::Some(LogicalOperator::OR)
    } else if s == "&&"@ {
        Option::Some(LogicalOperator::AND)
    } else {
        Option::None
    }
}

impl LogicalOperator {
    /// Reads the operator from its token; any other token is unrecognized.
    pub fn from_token(s: &str) -> (r: Option<Self>)
        ensures
            r == logical_op_of(s@),
    {
        if str_eq(s, "||") {
            Option::Some(Self::OR)
        } else if str_eq(s, "&&") {
            Option::Some(Self::AND)
        } else {
            Option::None
        }
    }
}

/// Everything that can stop a run; each error is fatal.
#[derive(Clone, Copy, Debug, PartialEq, Eq, Structural)]
pub enum EvalError {
    /// An update (no type tag) to a name never declared in any scope.
    UndeclaredAssignment,
    /// A compound `+=` on a name with no existing binding.
    UndeclaredCompoundAssignment,
    /// A built-in called with the wrong number of arguments.
    ArityError,
    /// An identifier read before any binding exists for it.
    UndefinedVariable,
    /// A call to a name that is no built-in.
    UndefinedFunction,
    /// A call through a variable binding; user functions are unsupported.
    UnsupportedCall,
    /// An `If` condition that is no logical chain.
    MalformedCondition,
    /// A chain term that is no logical value over a comparison.
    MalformedLogicalTerm,
    /// A comparison operator that is parsed but not evaluated.
    UnsupportedOperator,
    /// An operation on operand kinds it is not defined for.
    TypeMismatch,
    /// A print of a node that is no scalar.
    NotPrintable,
    /// A top-level node the evaluator does not execute.
    UnsupportedStatement,
}

/// One node of the abstract syntax tree.
#[derive(Debug, PartialEq)]
pub enum Node {
    /// Program root: an ordered sequence of statements.
    Enforce(Vec<Node>),
    Bool(bool),
    Int(i32),
    Str(String),
    Ident(String),
    /// Single-branch conditional: condition and body.
    eIf(Box<Node>, Vec<Node>),
    /// End-of-input marker; evaluates to a no-op.
    Empty,
    Call { ident: String, args: Vec<Node> },
    /// Declaration (`etype` present) or update (`etype` absent).
    Assignment { etype: Option<eType>, ident: String, operator: AssignmentOperator, value: Box<Node> },
    /// A single comparison, or a bare truthiness check when `rhs` is absent.
    ComparisonExpression { lhs: Box<Node>, rhs: Option<(ComparisonOperator, Box<Node>)> },
    /// A left-to-right chain of logical values.
    LogicalExpression(Vec<(LogicalOperator, Box<Node>)>),
    /// A chain term; `inverted` is parsed but never applied.
    LogicVal { inverted: bool, expr: Box<Node> },
}

/// The mathematical mirror of a [`Node`].
pub enum NodeV {
    Enforce(Seq<NodeV>),
    Bool(bool),
    Int(int),
    Str(Seq<char>),
    Ident(Seq<char>),
    eIf(Box<NodeV>, Seq<NodeV>),
    Empty,
    Call { ident: Seq<char>, args: Seq<NodeV> },
    Assignment { etype: Option<eType>, ident: Seq<char>, operator: AssignmentOperator, value: Box<NodeV> },
    ComparisonExpression { lhs: Box<NodeV>, rhs: Option<(ComparisonOperator, Box<NodeV>)> },
    LogicalExpression(Seq<(LogicalOperator, NodeV)>),
    LogicVal { inverted: bool, expr: Box<NodeV> },
}

impl Node {
    /// The mathematical value of this node.
    pub open spec fn deep_view(self) -> NodeV
        decreases self, 1nat,
    {
        match self {
            Node::Enforce(v) => NodeV::Enforce(nodes_view(v@)),
            Node::Bool(b) => NodeV::Bool(b),
            Node::Int(i) => NodeV::Int(i as int),
            Node::Str(s) => NodeV::Str(s@),
            Node::Ident(s) => NodeV::Ident(s@),
            Node::eIf(c, body) => NodeV::eIf(Box::new(c.deep_view()), nodes_view(body@)),
            Node::Empty => NodeV::Empty,
            Node::Call { ident, args } => NodeV::Call { ident: ident@, args: nodes_view(args@) },
            Node::Assignment { etype, ident, operator, value } => NodeV::Assignment {
                etype,
                ident: ident@,
                operator,
                value: Box::new(value.deep_view()),
            },
            Node::ComparisonExpression { lhs, rhs } => NodeV::ComparisonExpression {
                lhs: Box::new(lhs.deep_view()),
                rhs: match rhs {
                    Option::None => Option::None,
                    Option::Some((op, r)) => Option::Some((op, Box::new(r.deep_view()))),
                },
            },
            Node::LogicalExpression(checks) => NodeV::LogicalExpression(checks_view(checks@)),
            Node::LogicVal { inverted, expr } => NodeV::LogicVal {
                inverted,
                expr: Box::new(expr.deep_view()),
            },
        }
    }
}

/// The mirrors of a sequence of nodes, in order.
pub open spec fn nodes_view(s: Seq<Node>) -> Seq<NodeV>
    decreases s, 0nat,
{
    if s.len() == 0 {
        Seq::empty()
    } else {
        nodes_view(s.drop_last()).push(s.last().deep_view())
    }
}

/// The mirrors of a chain's terms, in order.
pub open spec fn checks_view(s: Seq<(LogicalOperator, Box<Node>)>) -> Seq<(LogicalOperator, NodeV)>
    decreases s, 0nat,
{
    if s.len() == 0 {
        Seq::empty()
    } else {
        checks_view(s.drop_last()).push((s.last().0, s.last().1.deep_view()))
    }
}

/// `nodes_view` maps each element to its mirror.
pub proof fn lemma_nodes_view(s: Seq<Node>)
    ensures
        nodes_view(s).len() == s.len(),
        forall|i: int| 0 <= i < s.len() ==> #[trigger] nodes_view(s)[i] == s[i].deep_view(),
    decreases s.len(),
{
    if s.len() > 0 {
        lemma_nodes_view(s.drop_last());
    }
}

/// `checks_view` maps each term to its mirror.
pub proof fn lemma_checks_view(s: Seq<(LogicalOperator, Box<Node>)>)
    ensures
        checks_view(s).len() == s.len(),
        forall|i: int|
            0 <= i < s.len() ==> #[trigger] checks_view(s)[i] == (s[i].0, s[i].1.deep_view()),
    decreases s.len(),
{
    if s.len() > 0 {
        lemma_checks_view(s.drop_last());
    }
}

/// Addition wrapping around the 32-bit signed range.
pub open spec fn wrap_add_i32(a: int, b: int) -> int {
    if a + b > i32::MAX {
        a + b - 0x1_0000_0000
    } else if a + b < i32::MIN {
        a + b + 0x1_0000_0000
    } else {
        a + b
    }
}

/// What `add` yields: integer addition (wrapping on overflow), textual
/// concatenation when a string is involved, and a type mismatch otherwise.
pub open spec fn spec_add(a: NodeV, b: NodeV) -> Result<NodeV, EvalError> {
    match (a, b) {
        (NodeV::Int(x), NodeV::Int(y)) => Result::Ok(NodeV::Int(wrap_add_i32(x, y))),
        (NodeV::Str(x), NodeV::Str(y)) => Result::Ok(NodeV::Str(x + y)),
        (NodeV::Int(x), NodeV::Str(y)) => Result::Ok(NodeV::Str(int_text(x) + y)),
        (NodeV::Str(x), NodeV::Int(y)) => Result::Ok(NodeV::Str(x + int_text(y))),
        _ => Result::Err(EvalError::TypeMismatch),
    }
}

/// A boolean read as an integer for comparisons.
pub open spec fn bool_int(b: bool) -> int {
    if b {
        1
    } else {
        0
    }
}

/// What `_eq` yields: integer equality, with booleans read as 0 or 1.
pub open spec fn spec_eq(a: NodeV, b: NodeV) -> Result<bool, EvalError> {
    match (a, b) {
        (NodeV::Int(x), NodeV::Int(y)) => Result::Ok(x == y),
        (NodeV::Int(x), NodeV::Bool(v)) => Result::Ok(x == bool_int(v)),
        (NodeV::Bool(u), NodeV::Int(y)) => Result::Ok(y == bool_int(u)),
        _ => Result::Err(EvalError::TypeMismatch),
    }
}

/// What `_gt` yields.
pub open spec fn spec_gt(a: NodeV, b: NodeV) -> Result<bool, EvalError> {
    match (a, b) {
        (NodeV::Int(x), NodeV::Int(y)) => Result::Ok(x > y),
        (NodeV::Int(x), NodeV::Bool(v)) => Result::Ok(x > bool_int(v)),
        (NodeV::Bool(u), NodeV::Int(y)) => Result::Ok(bool_int(u) > y),
        _ => Result::Err(EvalError::TypeMismatch),
    }
}

/// What `_lt` yields.
pub open spec fn spec_lt(a: NodeV, b: NodeV) -> Result<bool, EvalError> {
    match (a, b) {
        (NodeV::Int(x), NodeV::Int(y)) => Result::Ok(x < y),
        (NodeV::Int(x), NodeV::Bool(v)) => Result::Ok(x < bool_int(v)),
        (NodeV::Bool(u), NodeV::Int(y)) => Result::Ok(bool_int(u) < y),
        _ => Result::Err(EvalError::TypeMismatch),
    }
}

/// What printing yields: the text of a scalar, and an error otherwise.
pub open spec fn spec_stringify(a: NodeV) -> Result<Seq<char>, EvalError> {
    match a {
        NodeV::Str(s) => Result::Ok(s),
        NodeV::Int(n) => Result::Ok(int_text(n)),
        NodeV::Bool(b) => Result::Ok(bool_text(b)),
        _ => Result::Err(EvalError::NotPrintable),
    }
}

/// A node result seen through the mirror.
pub open spec fn result_view(r: Result<Node, EvalError>) -> Result<NodeV, EvalError> {
    match r {
        Result::Ok(n) => Result::Ok(n.deep_view()),
        Result::Err(e) => Result::Err(e),
    }
}

/// A text result seen through the view.
pub open spec fn text_result_view(r: Result<String, EvalError>) -> Result<Seq<char>, EvalError> {
    match r {
        Result::Ok(s) => Result::Ok(s@),
        Result::Err(e) => Result::Err(e),
    }
}

impl Node {
    /// Adds two value nodes exactly as [`spec_add`] says.
    pub fn add(&self, other: &Node) -> (r: Result<Node, EvalError>)
        ensures
            result_view(r) == spec_add(self.deep_view(), other.deep_view()),
    {
        match (self, other) {
            (Node::Int(a), Node::Int(b)) => Result::Ok(Node::Int(a.wrapping_add(*b))),
            (Node::Str(a), Node::Str(b)) => Result::Ok(Node::Str(concat_text(a, b))),
            (Node::Int(a), Node::Str(b)) => {
                let mut r = i32_text(*a);
                let cs = string_chars(b.as_str());
                crate::text::append_chars(&mut r, &cs);
                Result::Ok(Node::Str(r))
            },
            (Node::Str(a), Node::Int(b)) => {
                let mut r = a.clone();
                push_i32_text(*b, &mut r);
                Result::Ok(Node::Str(r))
            },
            _ => Result::Err(EvalError::TypeMismatch),
        }
    }

    /// Compares two value nodes for equality exactly as [`spec_eq`] says.
    pub fn _eq(&self, other: &Node) -> (r: Result<bool, EvalError>)
        ensures
            r == spec_eq(self.deep_view(), other.deep_view()),
    {
        match (self, other) {
            (Node::Int(a), Node::Int(b)) => Result::Ok(*a == *b),
            (Node::Int(a), Node::Bool(b)) => Result::Ok(*a == if *b { 1 } else { 0 }),
            (Node::Bool(a), Node::Int(b)) => Result::Ok(*b == if *a { 1 } else { 0 }),
            _ => Result::Err(EvalError::TypeMismatch),
        }
    }

    /// Greater-than on two value nodes exactly as [`spec_gt`] says.
    pub fn _gt(&self, other: &Node) -> (r: Result<bool, EvalError>)
        ensures
            r == spec_gt(self.deep_view(), other.deep_view()),
    {
        match (self, other) {
            (Node::Int(a), Node::Int(b)) => Result::Ok(*a > *b),
            (Node::Int(a), Node::Bool(b)) => Result::Ok(*a > if *b { 1 } else { 0 }),
            (Node::Bool(a), Node::Int(b)) => Result::Ok(*b < if *a { 1 } else { 0 }),
            _ => Result::Err(EvalError::TypeMismatch),
        }
    }

    /// Less-than on two value nodes exactly as [`spec_lt`] says.
    pub fn _lt(&self, other: &Node) -> (r: Result<bool, EvalError>)
        ensures
            r == spec_lt(self.deep_view(), other.deep_view()),
    {
        match (self, other) {
            (Node::Int(a), Node::Int(b)) => Result::Ok(*a < *b),
            (Node::Int(a), Node::Bool(b)) => Result::Ok(*a < if *b { 1 } else { 0 }),
            (Node::Bool(a), Node::Int(b)) => Result::Ok(*b > if *a { 1 } else { 0 }),
            _ => Result::Err(EvalError::TypeMismatch),
        }
    }

    /// Renders a scalar node as text exactly as [`spec_stringify`] says.
    pub fn stringify(&self) -> (r: Result<String, EvalError>)
        ensures
            text_result_view(r) == spec_stringify(self.deep_view()),
    {
        match self {
            Node::Str(s) => Result::Ok(s.clone()),
            Node::Int(n) => Result::Ok(i32_text(*n)),
            Node::Bool(b) => Result::Ok(
                if *b {
                    "true".to_owned()
                } else {
                    "false".to_owned()
                },
            ),
            _ => Result::Err(EvalError::NotPrintable),
        }
    }
}

} // verus!
