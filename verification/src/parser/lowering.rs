//! Lowering: from the generic, rule-tagged parse tree to the typed AST.
//!
//! The grammar itself is an external collaborator: it hands the crate a tree
//! of [`ParseTree`] nodes, each carrying a rule tag, the matched source text
//! (meaningful on leaves), and its children in order. Lowering is a single
//! exhaustive dispatch on the rule tag, specified by [`lower`]; a tag outside
//! the recognized set is a fatal error, never silently skipped.

use crate::parser::node::{
    assignment_op_of, comparison_op_of, etype_of, logical_op_of, AssignmentOperator,
    ComparisonOperator, LogicalOperator, Node, NodeV, eType,
};
use crate::text::{int_of_text, parse_i32, str_eq};
use vstd::prelude::*;

verus! {

/// The rule tags the lowering recognizes. `Token` stands for every other tag
/// the grammar may produce: operator tokens, whose text alone is read, and
/// unknown structure, which lowering rejects.
#[derive(Clone, Copy, Debug, PartialEq, Eq, Structural)]
pub enum Rule {
    Enforce,
    Assignment,
    Call,
    Int,
    StringLit,
    Ident,
    Bool,
    Eif,
    ComparisonExpr,
    LogicExpr,
    LogicVal,
    Eoi,
    Token,
}

/// Everything that can stop tree construction; each error is fatal.
#[derive(Clone, Copy, Debug, PartialEq, Eq, Structural)]
pub enum LoweringError {
    /// A rule tag outside the set the lowering recognizes.
    UnsupportedRule,
    /// An operator or type-tag token with no known reading.
    UnrecognizedOperator,
    /// A rule whose child count fits no alternative of that rule.
    MalformedRule,
    /// An integer or boolean leaf whose text denotes no value.
    BadLiteral,
}

/// One node of the generic parse tree the grammar hands over.
#[derive(Debug, PartialEq)]
pub struct ParseTree {
    pub rule: Rule,
    pub text: String,
    pub children: Vec<ParseTree>,
}

/// The mathematical mirror of a parse tree node.
pub struct TreeV {
    pub rule: Rule,
    pub text: Seq<char>,
    pub children: Seq<TreeV>,
}

impl ParseTree {
    /// The mathematical value of this parse tree node.
    pub open spec fn deep_view(self) -> TreeV
        decreases self, 1nat,
    {
        TreeV { rule: self.rule, text: self.text@, children: trees_view(self.children@) }
    }
}

/// The mirrors of a sequence of parse tree nodes, in order.
pub open spec fn trees_view(s: Seq<ParseTree>) -> Seq<TreeV>
    decreases s, 0nat,
{
    if s.len() == 0 {
        Seq::empty()
    } else {
        trees_view(s.drop_last()).push(s.last().deep_view())
    }
}

/// `trees_view` maps each element to its mirror.
pub proof fn lemma_trees_view(s: Seq<ParseTree>)
    ensures
        trees_view(s).len() == s.len(),
        forall|i: int| 0 <= i < s.len() ==> #[trigger] trees_view(s)[i] == s[i].deep_view(),
    decreases s.len(),
{
    if s.len() > 0 {
        lemma_trees_view(s.drop_last());
    }
}

/// What lowering one node yields, by rule tag. Child counts follow the
/// grammar's alternatives: a declaration has four children (type tag, name,
/// operator, value) and an update three; a call has a name and an argument
/// list; a conditional has its condition first and its body after it; a
/// comparison is one operand, or two joined by an operator token; a logical
/// chain is a first term followed by operator/term pairs; a logical value is
/// its expression, preceded by a negation marker when inverted.
pub open spec fn lower(t: TreeV) -> Result<NodeV, LoweringError>
    decreases t, 1nat,
{
    match t.rule {
        Rule::Enforce => match lower_seq(t.children) {
            Result::Ok(ns) => Result::Ok(NodeV::Enforce(ns)),
            Result::Err(e) => Result::Err(e),
        },
        Rule::Assignment => {
            let n = t.children.len();
            if n != 3 && n != 4 {
                Result::Err(LoweringError::MalformedRule)
            } else {
                let base: int = if n == 4 {
                    1
                } else {
                    0
                };
                let tag = if n == 4 {
                    match etype_of(t.children[0].text) {
                        Option::Some(e) => Result::Ok(Option::Some(e)),
                        Option::None => Result::Err(LoweringError::UnrecognizedOperator),
                    }
                } else {
                    Result::Ok(Option::None)
                };
                match tag {
                    Result::Err(e) => Result::Err(e),
                    Result::Ok(etype) => match assignment_op_of(t.children[base + 1].text) {
                        Option::None => Result::Err(LoweringError::UnrecognizedOperator),
                        Option::Some(operator) => match lower(t.children[base + 2]) {
                            Result::Err(e) => Result::Err(e),
                            Result::Ok(value) => Result::Ok(
                                NodeV::Assignment {
                                    etype,
                                    ident: t.children[base].text,
                                    operator,
                                    value: Box::new(value),
                                },
                            ),
                        },
                    },
                }
            }
        },
        Rule::Call => {
            if t.children.len() != 2 {
                Result::Err(LoweringError::MalformedRule)
            } else {
                match lower_seq(t.children[1].children) {
                    Result::Err(e) => Result::Err(e),
                    Result::Ok(args) => Result::Ok(
                        NodeV::Call { ident: t.children[0].text, args },
                    ),
                }
            }
        },
        Rule::Int => match int_of_text(t.text) {
            Option::Some(v) => Result::Ok(NodeV::Int(v)),
            Option::None => Result::Err(LoweringError::BadLiteral),
        },
        Rule::StringLit => {
            if t.children.len() == 0 {
                Result::Err(LoweringError::MalformedRule)
            } else {
                Result::Ok(NodeV::Str(t.children[0].text))
            }
        },
        Rule::Ident => Result::Ok(NodeV::Ident(t.text)),
        Rule::Bool => {
            if t.text == "true"@ {
                Result::Ok(NodeV::Bool(true))
            } else if t.text == "false"@ {
                Result::Ok(NodeV::Bool(false))
            } else {
                Result::Err(LoweringError::BadLiteral)
            }
        },
        Rule::Eif => {
            if t.children.len() == 0 {
                Result::Err(LoweringError::MalformedRule)
            } else {
                match lower(t.children[0]) {
                    Result::Err(e) => Result::Err(e),
                    Result::Ok(cond) => match lower_seq(t.children.drop_first()) {
                        Result::Err(e) => Result::Err(e),
                        Result::Ok(body) => Result::Ok(NodeV::eIf(Box::new(cond), body)),
                    },
                }
            }
        },
        Rule::ComparisonExpr => {
            let n = t.children.len();
            if n != 1 && n != 3 {
                Result::Err(LoweringError::MalformedRule)
            } else {
                match lower(t.children[0]) {
                    Result::Err(e) => Result::Err(e),
                    Result::Ok(lhs) => {
                        if n == 1 {
                            Result::Ok(
                                NodeV::ComparisonExpression {
                                    lhs: Box::new(lhs),
                                    rhs: Option::None,
                                },
                            )
                        } else {
                            match comparison_op_of(t.children[1].text) {
                                Option::None => Result::Err(LoweringError::UnrecognizedOperator),
                                Option::Some(op) => match lower(t.children[2]) {
                                    Result::Err(e) => Result::Err(e),
                                    Result::Ok(rhs) => Result::Ok(
                                        NodeV::ComparisonExpression {
                                            lhs: Box::new(lhs),
                                            rhs: Option::Some((op, Box::new(rhs))),
                                        },
                                    ),
                                },
                            }
                        }
                    },
                }
            }
        },
        Rule::LogicExpr => {
            if t.children.len() == 0 {
                Result::Err(LoweringError::MalformedRule)
            } else {
                match lower(t.children[0]) {
                    Result::Err(e) => Result::Err(e),
                    Result::Ok(first) => match lower_chain(t.children.drop_first()) {
                        Result::Err(e) => Result::Err(e),
                        Result::Ok(rest) => Result::Ok(
                            NodeV::LogicalExpression(
                                seq![(LogicalOperator::AND, first)] + rest,
                            ),
                        ),
                    },
                }
            }
        },
        Rule::LogicVal => {
            let n = t.children.len();
            if n != 1 && n != 2 {
                Result::Err(LoweringError::MalformedRule)
            } else {
                match lower(t.children[n - 1]) {
                    Result::Err(e) => Result::Err(e),
                    Result::Ok(expr) => Result::Ok(
                        NodeV::LogicVal { inverted: n == 2, expr: Box::new(expr) },
                    ),
                }
            }
        },
        Rule::Eoi => Result::Ok(NodeV::Empty),
        Rule::Token => Result::Err(LoweringError::UnsupportedRule),
    }
}

/// Lowers a sequence of statement nodes, in order, stopping at the first
/// error.
pub open spec fn lower_seq(s: Seq<TreeV>) -> Result<Seq<NodeV>, LoweringError>
    decreases s, 0nat,
{
    if s.len() == 0 {
        Result::Ok(Seq::empty())
    } else {
        match lower(s[0]) {
            Result::Err(e) => Result::Err(e),
            Result::Ok(n) => match lower_seq(s.drop_first()) {
                Result::Err(e) => Result::Err(e),
                Result::Ok(rest) => Result::Ok(seq![n] + rest),
            },
        }
    }
}

/// Lowers the operator/term pairs that follow a chain's first term.
pub open spec fn lower_chain(cs: Seq<TreeV>) -> Result<
    Seq<(LogicalOperator, NodeV)>,
    LoweringError,
>
    decreases cs, 0nat,
{
    if cs.len() == 0 {
        Result::Ok(Seq::empty())
    } else if cs.len() == 1 {
        Result::Err(LoweringError::MalformedRule)
    } else {
        match logical_op_of(cs[0].text) {
            Option::None => Result::Err(LoweringError::UnrecognizedOperator),
            Option::Some(op) => match lower(cs[1]) {
                Result::Err(e) => Result::Err(e),
                Result::Ok(term) => match lower_chain(cs.drop_first().drop_first()) {
                    Result::Err(e) => Result::Err(e),
                    Result::Ok(rest) => Result::Ok(seq![(op, term)] + rest),
                },
            },
        }
    }
}

/// A lowering result seen through the mirror.
pub open spec fn lower_result_view(r: Result<Node, LoweringError>) -> Result<
    NodeV,
    LoweringError,
> {
    match r {
        Result::Ok(n) => Result::Ok(n.deep_view()),
        Result::Err(e) => Result::Err(e),
    }
}

/// Lowers the children of `s` from index `start` on, exactly as [`lower_seq`]
/// says of that suffix.
fn lower_seq_exec(s: &Vec<ParseTree>, start: usize) -> (r: Result<Vec<Node>, LoweringError>)
    requires
        start <= s.len(),
    ensures
        match r {
            Result::Ok(v) => lower_seq(trees_view(s@).skip(start as int)) == Result::<
                Seq<NodeV>,
                LoweringError,
            >::Ok(crate::parser::node::nodes_view(v@)),
            Result::Err(e) => lower_seq(trees_view(s@).skip(start as int)) == Result::<
                Seq<NodeV>,
                LoweringError,
            >::Err(e),
        },
    decreases s@, 0nat, s.len() - start,
{
    proof {
        lemma_trees_view(s@);
    }
    let ghost suffix = trees_view(s@).skip(start as int);
    if start == s.len() {
        let v: Vec<Node> = Vec::new();
        proof {
            assert(suffix.len() == 0);
            assert(crate::parser::node::nodes_view(v@) =~= Seq::<NodeV>::empty());
        }
        return Result::Ok(v);
    }
    let first = match Node::from_expr(&s[start]) {
        Result::Ok(n) => n,
        Result::Err(e) => {
            proof {
                assert(suffix[0] == s@[start as int].deep_view());
            }
            return Result::Err(e);
        },
    };
    proof {
        assert(suffix[0] == s@[start as int].deep_view());
        assert(suffix.drop_first() =~= trees_view(s@).skip(start + 1));
    }
    match lower_seq_exec(s, start + 1) {
        Result::Err(e) => Result::Err(e),
        Result::Ok(rest) => {
            let ghost restv = rest@;
            let mut v = rest;
            v.insert(0, first);
            proof {
                assert(v@.drop_first() =~= restv);
                crate::parser::node::lemma_nodes_view(v@);
                crate::parser::node::lemma_nodes_view(restv);
                assert(crate::parser::node::nodes_view(v@) =~= seq![first.deep_view()]
                    + crate::parser::node::nodes_view(restv));
            }
            Result::Ok(v)
        },
    }
}

/// Lowers a chain's operator/term pairs from index `start` on, exactly as
/// [`lower_chain`] says of that suffix.
fn lower_chain_exec(s: &Vec<ParseTree>, start: usize) -> (r: Result<
    Vec<(LogicalOperator, Box<Node>)>,
    LoweringError,
>)
    requires
        start <= s.len(),
    ensures
        match r {
            Result::Ok(v) => lower_chain(trees_view(s@).skip(start as int)) == Result::<
                Seq<(LogicalOperator, NodeV)>,
                LoweringError,
            >::Ok(crate::parser::node::checks_view(v@)),
            Result::Err(e) => lower_chain(trees_view(s@).skip(start as int)) == Result::<
                Seq<(LogicalOperator, NodeV)>,
                LoweringError,
            >::Err(e),
        },
    decreases s@, 0nat, s.len() - start,
{
    proof {
        lemma_trees_view(s@);
    }
    let ghost suffix = trees_view(s@).skip(start as int);
    if start == s.len() {
        let v: Vec<(LogicalOperator, Box<Node>)> = Vec::new();
        proof {
            assert(suffix.len() == 0);
            assert(crate::parser::node::checks_view(v@) =~= Seq::<
                (LogicalOperator, NodeV),
            >::empty());
        }
        return Result::Ok(v);
    }
    if start + 1 == s.len() {
        return Result::Err(LoweringError::MalformedRule);
    }
    proof {
        assert(suffix[0] == s@[start as int].deep_view());
        assert(suffix[1] == s@[start + 1].deep_view());
        assert(suffix.drop_first().drop_first() =~= trees_view(s@).skip(start + 2));
    }
    let op = match LogicalOperator::from_token(s[start].text.as_str()) {
        Option::Some(o) => o,
        Option::None => {
            return Result::Err(LoweringError::UnrecognizedOperator);
        },
    };
    let term = match Node::from_expr(&s[start + 1]) {
        Result::Ok(n) => n,
        Result::Err(e) => {
            return Result::Err(e);
        },
    };
    match lower_chain_exec(s, start + 2) {
        Result::Err(e) => Result::Err(e),
        Result::Ok(rest) => {
            let ghost restv = rest@;
            let mut v = rest;
            v.insert(0, (op, Box::new(term)));
            proof {
                assert(v@.drop_first() =~= restv);
                crate::parser::node::lemma_checks_view(v@);
                crate::parser::node::lemma_checks_view(restv);
                assert(crate::parser::node::checks_view(v@) =~= seq![(op, term.deep_view())]
                    + crate::parser::node::checks_view(restv));
            }
            Result::Ok(v)
        },
    }
}

impl Node {
    /// Lowers one parse tree node exactly as [`lower`] says.
    #[verifier::rlimit(80)]
    pub fn from_expr(t: &ParseTree) -> (r: Result<Node, LoweringError>)
        ensures
            lower_result_view(r) == lower(t.deep_view()),
        decreases *t, 1nat, 0nat,
    {
        let ghost tv = t.deep_view();
        proof {
            assert(tv == (TreeV {
                rule: t.rule,
                text: t.text@,
                children: trees_view(t.children@),
            }));
            lemma_trees_view(t.children@);
        }
        match t.rule {
            Rule::Enforce => {
                proof {
                    assert(trees_view(t.children@).skip(0) =~= tv.children);
                }
                match lower_seq_exec(&t.children, 0) {
                    Result::Ok(v) => Result::Ok(Node::Enforce(v)),
                    Result::Err(e) => Result::Err(e),
                }
            },
            Rule::Assignment => {
                let n = t.children.len();
                if n != 3 && n != 4 {
                    return Result::Err(LoweringError::MalformedRule);
                }
                let typed = n == 4;
                let base: usize = if typed {
                    1
                } else {
                    0
                };
                let etype: Option<eType> = if typed {
                    match eType::from_token(t.children[0].text.as_str()) {
                        Option::Some(e) => Option::Some(e),
                        Option::None => {
                            return Result::Err(LoweringError::UnrecognizedOperator);
                        },
                    }
                } else {
                    Option::None
                };
                let operator = match AssignmentOperator::from_token(
                    t.children[base + 1].text.as_str(),
                ) {
                    Option::Some(o) => o,
                    Option::None => {
                        return Result::Err(LoweringError::UnrecognizedOperator);
                    },
                };
                let value = match Node::from_expr(&t.children[base + 2]) {
                    Result::Ok(v) => v,
                    Result::Err(e) => {
                        return Result::Err(e);
                    },
                };
                Result::Ok(
                    Node::Assignment {
                        etype,
                        ident: t.children[base].text.clone(),
                        operator,
                        value: Box::new(value),
                    },
                )
            },
            Rule::Call => {
                if t.children.len() != 2 {
                    return Result::Err(LoweringError::MalformedRule);
                }
                proof {
                    lemma_trees_view(t.children@[1].children@);
                    assert(tv.children[1] == t.children@[1].deep_view());
                    assert(trees_view(t.children@[1].children@).skip(0) =~= tv.children[1].children);
                }
                match lower_seq_exec(&t.children[1].children, 0) {
                    Result::Err(e) => Result::Err(e),
                    Result::Ok(args) => Result::Ok(
                        Node::Call { ident: t.children[0].text.clone(), args },
                    ),
                }
            },
            Rule::Int => match parse_i32(t.text.as_str()) {
                Option::Some(v) => Result::Ok(Node::Int(v)),
                Option::None => Result::Err(LoweringError::BadLiteral),
            },
            Rule::StringLit => {
                if t.children.len() == 0 {
                    return Result::Err(LoweringError::MalformedRule);
                }
                Result::Ok(Node::Str(t.children[0].text.clone()))
            },
            Rule::Ident => Result::Ok(Node::Ident(t.text.clone())),
            Rule::Bool => {
                if str_eq(t.text.as_str(), "true") {
                    Result::Ok(Node::Bool(true))
                } else if str_eq(t.text.as_str(), "false") {
                    Result::Ok(Node::Bool(false))
                } else {
                    Result::Err(LoweringError::BadLiteral)
                }
            },
            Rule::Eif => {
                if t.children.len() == 0 {
                    return Result::Err(LoweringError::MalformedRule);
                }
                let cond = match Node::from_expr(&t.children[0]) {
                    Result::Ok(c) => c,
                    Result::Err(e) => {
                        return Result::Err(e);
                    },
                };
                proof {
                    assert(trees_view(t.children@).skip(1) =~= tv.children.drop_first());
                }
                match lower_seq_exec(&t.children, 1) {
                    Result::Err(e) => Result::Err(e),
                    Result::Ok(body) => Result::Ok(Node::eIf(Box::new(cond), body)),
                }
            },
            Rule::ComparisonExpr => {
                let n = t.children.len();
                if n != 1 && n != 3 {
                    return Result::Err(LoweringError::MalformedRule);
                }
                let lhs = match Node::from_expr(&t.children[0]) {
                    Result::Ok(l) => l,
                    Result::Err(e) => {
                        return Result::Err(e);
                    },
                };
                if n == 1 {
                    Result::Ok(
                        Node::ComparisonExpression { lhs: Box::new(lhs), rhs: Option::None },
                    )
                } else {
                    let op = match ComparisonOperator::from_token(t.children[1].text.as_str()) {
                        Option::Some(o) => o,
                        Option::None => {
                            return Result::Err(LoweringError::UnrecognizedOperator);
                        },
                    };
                    match Node::from_expr(&t.children[2]) {
                        Result::Err(e) => Result::Err(e),
                        Result::Ok(rhs) => Result::Ok(
                            Node::ComparisonExpression {
                                lhs: Box::new(lhs),
                                rhs: Option::Some((op, Box::new(rhs))),
                            },
                        ),
                    }
                }
            },
            Rule::LogicExpr => {
                if t.children.len() == 0 {
                    return Result::Err(LoweringError::MalformedRule);
                }
                let first = match Node::from_expr(&t.children[0]) {
                    Result::Ok(f) => f,
                    Result::Err(e) => {
                        return Result::Err(e);
                    },
                };
                proof {
                    assert(trees_view(t.children@).skip(1) =~= tv.children.drop_first());
                }
                match lower_chain_exec(&t.children, 1) {
                    Result::Err(e) => Result::Err(e),
                    Result::Ok(rest) => {
                        let ghost restv = rest@;
                        let mut checks = rest;
                        checks.insert(0, (LogicalOperator::AND, Box::new(first)));
                        proof {
                            assert(checks@.drop_first() =~= restv);
                            crate::parser::node::lemma_checks_view(checks@);
                            crate::parser::node::lemma_checks_view(restv);
                            assert(crate::parser::node::checks_view(checks@) =~= seq![
                                (LogicalOperator::AND, first.deep_view()),
                            ] + crate::parser::node::checks_view(restv));
                        }
                        Result::Ok(Node::LogicalExpression(checks))
                    },
                }
            },
            Rule::LogicVal => {
                let n = t.children.len();
                if n != 1 && n != 2 {
                    return Result::Err(LoweringError::MalformedRule);
                }
                match Node::from_expr(&t.children[n - 1]) {
                    Result::Err(e) => Result::Err(e),
                    Result::Ok(expr) => Result::Ok(
                        Node::LogicVal { inverted: n == 2, expr: Box::new(expr) },
                    ),
                }
            },
            Rule::Eoi => Result::Ok(Node::Empty),
            Rule::Token => Result::Err(LoweringError::UnsupportedRule),
        }
    }
}

/// Lowers a whole parse tree handed over by the grammar, exactly as
/// [`lower`] says.
pub fn parse(tree: &ParseTree) -> (r: Result<Node, LoweringError>)
    ensures
        lower_result_view(r) == lower(tree.deep_view()),
{
    Node::from_expr(tree)
}

} // verus!
