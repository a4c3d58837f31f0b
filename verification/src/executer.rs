//! The evaluator: runs a sequence of statements against the scope store.
//!
//! The meaning of every statement is given by the specification interpreter
//! ([`eval_stmt`], [`eval_stmts`], [`eval_chain`]); the executable evaluator
//! is proved to follow it step for step. Every error is fatal: a run stops at
//! the first one and later statements are not executed.

pub mod heap;

use crate::executer::heap::{heap_bind, heap_contains, heap_find, heap_wf, HeapV};
use crate::parser::node::{
    checks_view, lemma_checks_view, lemma_nodes_view, nodes_view, spec_add, spec_eq, spec_gt,
    spec_lt, spec_stringify, AssignmentOperator, ComparisonOperator, EvalError, LogicalOperator,
    Node, NodeV,
};
use crate::text::str_eq;
use vstd::prelude::*;

pub use heap::Heap;

verus! {

/// The observable state of a run: the store and the lines printed so far.
pub struct StateV {
    pub heap: HeapV,
    pub out: Seq<Seq<char>>,
}

/// The printed lines as mathematical text.
pub open spec fn lines_view(out: Seq<String>) -> Seq<Seq<char>> {
    out.map_values(|s: String| s@)
}

/// The store a run starts from: one empty root scope.
pub open spec fn initial_heap() -> HeapV {
    seq![Seq::empty()]
}

/// Resolves an operand: an identifier is read from the store; anything else
/// stands for itself.
pub open spec fn resolve(v: NodeV, h: HeapV) -> Result<NodeV, EvalError> {
    match v {
        NodeV::Ident(k) => match heap_find(h, k) {
            Option::Some(n) => Result::Ok(n),
            Option::None => Result::Err(EvalError::UndefinedVariable),
        },
        _ => Result::Ok(v),
    }
}

/// Applies one comparison; `>=`, `<=` and `!=` are parsed but not evaluated.
pub open spec fn apply_comparison(op: ComparisonOperator, a: NodeV, b: NodeV) -> Result<
    bool,
    EvalError,
> {
    match op {
        ComparisonOperator::EqualEqual => spec_eq(a, b),
        ComparisonOperator::GreaterThan => spec_gt(a, b),
        ComparisonOperator::LessThan => spec_lt(a, b),
        _ => Result::Err(EvalError::UnsupportedOperator),
    }
}

/// One step of a logical chain. The term is only evaluated when it can still
/// change the outcome; otherwise `cur` is carried forward. An evaluated term
/// must be a logical value wrapping a single comparison; a comparison without
/// a right-hand side degenerates to an equality with `true`.
pub open spec fn chain_step(cur: bool, op: LogicalOperator, term: NodeV, h: HeapV) -> Result<
    bool,
    EvalError,
> {
    if (cur && op == LogicalOperator::AND) || (!cur && op == LogicalOperator::OR) {
        match term {
            NodeV::LogicVal { inverted, expr } => match *expr {
                NodeV::ComparisonExpression { lhs, rhs } => match resolve(*lhs, h) {
                    Result::Err(e) => Result::Err(e),
                    Result::Ok(a) => match rhs {
                        Option::None => spec_eq(a, NodeV::Bool(true)),
                        Option::Some((cop, r)) => match resolve(*r, h) {
                            Result::Err(e) => Result::Err(e),
                            Result::Ok(b) => apply_comparison(cop, a, b),
                        },
                    },
                },
                _ => Result::Err(EvalError::MalformedLogicalTerm),
            },
            _ => Result::Err(EvalError::MalformedLogicalTerm),
        }
    } else {
        Result::Ok(cur)
    }
}

/// A whole chain, strictly left to right, starting from `cur`.
pub open spec fn eval_chain(cur: bool, checks: Seq<(LogicalOperator, NodeV)>, h: HeapV) -> Result<
    bool,
    EvalError,
>
    decreases checks.len(),
{
    if checks.len() == 0 {
        Result::Ok(cur)
    } else {
        match chain_step(cur, checks[0].0, checks[0].1, h) {
            Result::Err(e) => Result::Err(e),
            Result::Ok(c) => eval_chain(c, checks.drop_first(), h),
        }
    }
}

/// What one statement does to the state. On an error the returned state is
/// the one at the point of failure; the caller aborts the run either way.
pub open spec fn eval_stmt(stmt: NodeV, st: StateV) -> (Option<EvalError>, StateV)
    decreases stmt, 0nat,
{
    match stmt {
        NodeV::Assignment { etype, ident, operator, value } => {
            let resolved = if operator == AssignmentOperator::Equal {
                Result::Ok(*value)
            } else {
                match heap_find(st.heap, ident) {
                    Option::Some(w) => spec_add(w, *value),
                    Option::None => Result::Err(EvalError::UndeclaredCompoundAssignment),
                }
            };
            match resolved {
                Result::Err(e) => (Option::Some(e), st),
                Result::Ok(v) => match heap_bind(st.heap, ident, v, etype is Some) {
                    Option::Some(h2) => (Option::None, StateV { heap: h2, out: st.out }),
                    Option::None => (Option::Some(EvalError::UndeclaredAssignment), st),
                },
            }
        },
        NodeV::Call { ident, args } => {
            if heap_contains(st.heap, ident) {
                (Option::Some(EvalError::UnsupportedCall), st)
            } else if ident == "Print"@ {
                if args.len() != 1 {
                    (Option::Some(EvalError::ArityError), st)
                } else {
                    match resolve(args[0], st.heap) {
                        Result::Err(e) => (Option::Some(e), st),
                        Result::Ok(v) => match spec_stringify(v) {
                            Result::Err(e) => (Option::Some(e), st),
                            Result::Ok(line) => (
                                Option::None,
                                StateV { heap: st.heap, out: st.out.push(line) },
                            ),
                        },
                    }
                }
            } else {
                (Option::Some(EvalError::UndefinedFunction), st)
            }
        },
        NodeV::eIf(cond, body) => match *cond {
            NodeV::LogicalExpression(checks) => match eval_chain(true, checks, st.heap) {
                Result::Err(e) => (Option::Some(e), st),
                Result::Ok(true) => eval_stmts(body, st),
                Result::Ok(false) => (Option::None, st),
            },
            _ => (Option::Some(EvalError::MalformedCondition), st),
        },
        NodeV::Empty => (Option::None, st),
        _ => (Option::Some(EvalError::UnsupportedStatement), st),
    }
}

/// Runs statements in order, stopping at the first error.
pub open spec fn eval_stmts(stmts: Seq<NodeV>, st: StateV) -> (Option<EvalError>, StateV)
    decreases stmts, 1nat,
{
    if stmts.len() == 0 {
        (Option::None, st)
    } else {
        let r = eval_stmt(stmts[0], st);
        if r.0 is Some {
            r
        } else {
            eval_stmts(stmts.drop_first(), r.1)
        }
    }
}

/// Evaluates one chain term exactly as [`chain_step`] says.
pub fn evaluate_comparison(current: bool, op: LogicalOperator, node: Node, heap: &Heap) -> (r:
    Result<bool, EvalError>)
    ensures
        r == chain_step(current, op, node.deep_view(), heap@),
{
    if (current && op == LogicalOperator::AND) || (!current && op == LogicalOperator::OR) {
        match &node {
            Node::LogicVal { inverted, expr } => match &**expr {
                Node::ComparisonExpression { lhs, rhs } => {
                    proof {
                        assert((**expr).deep_view() == (NodeV::ComparisonExpression {
                            lhs: Box::new((**lhs).deep_view()),
                            rhs: match *rhs {
                                Option::None => Option::None,
                                Option::Some((c2, r2)) => Option::Some(
                                    (c2, Box::new(r2.deep_view())),
                                ),
                            },
                        }));
                        assert(node.deep_view() == (NodeV::LogicVal {
                            inverted: *inverted,
                            expr: Box::new((**expr).deep_view()),
                        }));
                    }
                    let a: &Node = match &**lhs {
                        Node::Ident(k) => {
                            proof {
                                assert((**lhs).deep_view() == NodeV::Ident(k@));
                            }
                            match heap.get_variable(k.as_str()) {
                                Option::Some(n) => n,
                                Option::None => {
                                    return Result::Err(EvalError::UndefinedVariable);
                                },
                            }
                        },
                        _ => {
                            proof {
                                assert(!((**lhs).deep_view() is Ident));
                            }
                            &**lhs
                        },
                    };
                    match rhs {
                        Option::Some((cop, rnode)) => {
                            let b: &Node = match &**rnode {
                                Node::Ident(k) => {
                                    proof {
                                        assert((**rnode).deep_view() == NodeV::Ident(k@));
                                    }
                                    match heap.get_variable(k.as_str()) {
                                        Option::Some(n) => n,
                                        Option::None => {
                                            return Result::Err(EvalError::UndefinedVariable);
                                        },
                                    }
                                },
                                _ => {
                                    proof {
                                        assert(!((**rnode).deep_view() is Ident));
                                    }
                                    &**rnode
                                },
                            };
                            match cop {
                                ComparisonOperator::EqualEqual => a._eq(b),
                                ComparisonOperator::GreaterThan => a._gt(b),
                                ComparisonOperator::LessThan => a._lt(b),
                                _ => Result::Err(EvalError::UnsupportedOperator),
                            }
                        },
                        Option::None => a._eq(&Node::Bool(true)),
                    }
                },
                _ => {
                    proof {
                        assert(!((**expr).deep_view() is ComparisonExpression));
                        assert(node.deep_view() == (NodeV::LogicVal {
                            inverted: *inverted,
                            expr: Box::new((**expr).deep_view()),
                        }));
                    }
                    Result::Err(EvalError::MalformedLogicalTerm)
                },
            },
            _ => {
                proof {
                    assert(!(node.deep_view() is LogicVal));
                }
                Result::Err(EvalError::MalformedLogicalTerm)
            },
        }
    } else {
        Result::Ok(current)
    }
}

/// Evaluates a whole chain exactly as [`eval_chain`] says.
fn eval_checks(current: bool, checks: Vec<(LogicalOperator, Box<Node>)>, heap: &Heap) -> (r:
    Result<bool, EvalError>)
    ensures
        r == eval_chain(current, checks_view(checks@), heap@),
    decreases checks@.len(),
{
    proof {
        lemma_checks_view(checks@);
    }
    if checks.len() == 0 {
        Result::Ok(current)
    } else {
        let ghost cv = checks_view(checks@);
        let mut rest = checks;
        let (op, term) = rest.remove(0);
        proof {
            assert(checks_view(rest@) =~= cv.drop_first()) by {
                lemma_checks_view(rest@);
                assert(rest@ =~= checks@.drop_first());
            }
        }
        match evaluate_comparison(current, op, *term, heap) {
            Result::Err(e) => Result::Err(e),
            Result::Ok(c) => {
                proof {
                    assert(rest@.len() < checks@.len());
                }
                eval_checks(c, rest, heap)
            },
        }
    }
}

/// Executes one statement exactly as [`eval_stmt`] says, appending any
/// printed line to `out`.
pub fn doit(node: Node, heap: &mut Heap, out: &mut Vec<String>) -> (r: Result<(), EvalError>)
    requires
        heap_wf(old(heap)@),
    ensures
        ({
            let res = eval_stmt(
                node.deep_view(),
                StateV { heap: old(heap)@, out: lines_view(old(out)@) },
            );
            &&& final(heap)@ == res.1.heap
            &&& lines_view(final(out)@) == res.1.out
            &&& match r {
                Result::Ok(()) => res.0 is None,
                Result::Err(e) => res.0 == Option::Some(e),
            }
        }),
        heap_wf(final(heap)@),
    decreases node, 0nat,
{
    let ghost nv = node.deep_view();
    match node {
        Node::Assignment { etype, ident, operator, value } => {
            proof {
                assert(nv == (NodeV::Assignment {
                    etype,
                    ident: ident@,
                    operator,
                    value: Box::new(value.deep_view()),
                }));
            }
            let ghost vv = value.deep_view();
            let declare = etype.is_some();
            let resolved: Box<Node> = match operator {
                AssignmentOperator::Equal => value,
                AssignmentOperator::AddEqual => {
                    match heap.get_variable(ident.as_str()) {
                        Option::Some(w) => match w.add(&*value) {
                            Result::Ok(n) => Box::new(n),
                            Result::Err(e) => {
                                return Result::Err(e);
                            },
                        },
                        Option::None => {
                            return Result::Err(EvalError::UndeclaredCompoundAssignment);
                        },
                    }
                },
            };
            match heap.set_variable(ident.as_str(), resolved, declare) {
                Result::Ok(()) => Result::Ok(()),
                Result::Err(()) => Result::Err(EvalError::UndeclaredAssignment),
            }
        },
        Node::Call { ident, args } => {
            proof {
                lemma_nodes_view(args@);
                assert(nv == (NodeV::Call { ident: ident@, args: nodes_view(args@) }));
            }
            let bound = heap.get_variable(ident.as_str());
            if bound.is_some() {
                return Result::Err(EvalError::UnsupportedCall);
            }
            if str_eq(ident.as_str(), "Print") {
                if args.len() != 1 {
                    return Result::Err(EvalError::ArityError);
                }
                let arg = &args[0];
                let resolved: &Node = match arg {
                    Node::Ident(k) => {
                        proof {
                            assert(args@[0].deep_view() == NodeV::Ident(k@));
                        }
                        match heap.get_variable(k.as_str()) {
                            Option::Some(n) => n,
                            Option::None => {
                                return Result::Err(EvalError::UndefinedVariable);
                            },
                        }
                    },
                    _ => {
                        proof {
                            assert(!(args@[0].deep_view() is Ident));
                        }
                        arg
                    },
                };
                match resolved.stringify() {
                    Result::Ok(line) => {
                        let ghost lines0 = lines_view(out@);
                        out.push(line);
                        proof {
                            assert(lines_view(out@) =~= lines0.push(line@));
                        }
                        Result::Ok(())
                    },
                    Result::Err(e) => Result::Err(e),
                }
            } else {
                Result::Err(EvalError::UndefinedFunction)
            }
        },
        Node::eIf(cond, body) => {
            proof {
                assert(nv == NodeV::eIf(Box::new(cond.deep_view()), nodes_view(body@)));
            }
            let ghost condv = cond.deep_view();
            match *cond {
                Node::LogicalExpression(checks) => {
                    proof {
                        assert(condv == NodeV::LogicalExpression(checks_view(checks@)));
                    }
                    match eval_checks(true, checks, heap) {
                        Result::Err(e) => Result::Err(e),
                        Result::Ok(true) => {
                            proof {
                                assert(decreases_to!(node => body));
                                assert(decreases_to!(body => body@));
                            }
                            run(body, heap, out)
                        },
                        Result::Ok(false) => Result::Ok(()),
                    }
                },
                _ => {
                    proof {
                        assert(!(condv is LogicalExpression));
                    }
                    Result::Err(EvalError::MalformedCondition)
                },
            }
        },
        Node::Empty => Result::Ok(()),
        _ => {
            proof {
                assert(!(nv is Assignment) && !(nv is Call) && !(nv is eIf) && !(nv is Empty));
            }
            Result::Err(EvalError::UnsupportedStatement)
        },
    }
}

/// Runs statements in order exactly as [`eval_stmts`] says, stopping at the
/// first error.
pub fn run(stmts: Vec<Node>, heap: &mut Heap, out: &mut Vec<String>) -> (r: Result<(), EvalError>)
    requires
        heap_wf(old(heap)@),
    ensures
        ({
            let res = eval_stmts(
                nodes_view(stmts@),
                StateV { heap: old(heap)@, out: lines_view(old(out)@) },
            );
            &&& final(heap)@ == res.1.heap
            &&& lines_view(final(out)@) == res.1.out
            &&& match r {
                Result::Ok(()) => res.0 is None,
                Result::Err(e) => res.0 == Option::Some(e),
            }
        }),
        heap_wf(final(heap)@),
    decreases stmts@, 1nat,
{
    proof {
        lemma_nodes_view(stmts@);
    }
    if stmts.len() == 0 {
        return Result::Ok(());
    }
    let ghost sv = nodes_view(stmts@);
    let mut rest = stmts;
    let first = rest.remove(0);
    proof {
        assert(nodes_view(rest@) =~= sv.drop_first()) by {
            lemma_nodes_view(rest@);
            assert(rest@ =~= stmts@.drop_first());
        }
        assert(decreases_to!(stmts@ => first));
    }
    match doit(first, heap, out) {
        Result::Err(e) => Result::Err(e),
        Result::Ok(()) => {
            proof {
                assert(rest@ =~= stmts@.drop_first());
                assert(decreases_to!(stmts@ => rest@));
            }
            run(rest, heap, out)
        },
    }
}

/// Runs a whole program against a fresh store and returns its printed lines.
pub fn execute(ast: Vec<Node>) -> (r: Result<Vec<String>, EvalError>)
    ensures
        ({
            let res = eval_stmts(nodes_view(ast@), StateV { heap: initial_heap(), out: Seq::empty() });
            match r {
                Result::Ok(lines) => res.0 is None && lines_view(lines@) == res.1.out,
                Result::Err(e) => res.0 == Option::Some(e),
            }
        }),
{
    let mut heap = Heap::new();
    let mut out: Vec<String> = Vec::new();
    proof {
        assert(heap@ =~~= initial_heap());
        assert(lines_view(out@) =~= Seq::<Seq<char>>::empty());
    }
    match run(ast, &mut heap, &mut out) {
        Result::Ok(()) => Result::Ok(out),
        Result::Err(e) => Result::Err(e),
    }
}

} // verus!
