//! Laws of the evaluator, stated over the specification interpreter and
//! proved once and for all inputs.

use crate::executer::heap::{
    heap_bind, heap_contains, heap_find, heap_wf, lemma_bind_then_find,
    lemma_top_scope_with_props, HeapV,
};
use crate::executer::{chain_step, eval_chain, eval_stmt, eval_stmts, StateV};
use crate::parser::node::{
    spec_add, spec_stringify, AssignmentOperator, EvalError, LogicalOperator, NodeV, eType,
};
use vstd::prelude::*;

verus! {

/// Law: after a valid declaration `T x = v` of a printable scalar value, a
/// `Print(x)` renders exactly the stringification of `v`: the two statements
/// run without error and append that one line. (`Print` itself must not be
/// shadowed by a variable, and the declaration must not shadow `Print`.)
pub proof fn lemma_declare_then_print(tag: eType, ident: Seq<char>, v: NodeV, st: StateV)
    requires
        heap_wf(st.heap),
        !heap_contains(st.heap, "Print"@),
        ident != "Print"@,
        spec_stringify(v) is Ok,
        !(v is Ident),
    ensures
        ({
            let decl = NodeV::Assignment {
                etype: Option::Some(tag),
                ident,
                operator: AssignmentOperator::Equal,
                value: Box::new(v),
            };
            let call = NodeV::Call { ident: "Print"@, args: seq![NodeV::Ident(ident)] };
            let res = eval_stmts(seq![decl, call], st);
            &&& res.0 is None
            &&& res.1.out == st.out.push(spec_stringify(v).unwrap())
        }),
{
    let decl = NodeV::Assignment {
        etype: Option::Some(tag),
        ident,
        operator: AssignmentOperator::Equal,
        value: Box::new(v),
    };
    let call = NodeV::Call { ident: "Print"@, args: seq![NodeV::Ident(ident)] };
    let prog = seq![decl, call];
    assert(heap_bind(st.heap, ident, v, true) is Some);
    let h2 = heap_bind(st.heap, ident, v, true).unwrap();
    lemma_bind_then_find(st.heap, ident, v, true);
    assert(heap_find(h2, ident) == Option::Some(v));
    assert(heap_find(h2, "Print"@) == heap_find(st.heap, "Print"@));
    let st1 = StateV { heap: h2, out: st.out };
    let r1 = eval_stmt(prog[0], st);
    assert(r1 == (Option::None::<EvalError>, st1));
    let st2 = StateV { heap: h2, out: st.out.push(spec_stringify(v).unwrap()) };
    let r2 = eval_stmt(call, st1);
    assert(r2 == (Option::None::<EvalError>, st2));
    assert(eval_stmts(Seq::<NodeV>::empty(), st2) == (Option::None::<EvalError>, st2));
    assert(seq![call].drop_first() =~= Seq::<NodeV>::empty());
    assert(seq![call][0] == call);
    assert(eval_stmts(seq![call], st1) == (Option::None::<EvalError>, st2));
    assert(prog.drop_first() =~= seq![call]);
    assert(eval_stmts(prog, st) == (Option::None::<EvalError>, st2));
}

/// Law: `x += v` behaves exactly like `x = w.add(v)`, where `w` is the value
/// currently bound to `x`, whenever that addition is defined, for every
/// operand-kind pair `add` accepts.
pub proof fn lemma_compound_is_add_then_assign(
    etype: Option<eType>,
    ident: Seq<char>,
    v: NodeV,
    w: NodeV,
    u: NodeV,
    st: StateV,
)
    requires
        heap_find(st.heap, ident) == Option::Some(w),
        spec_add(w, v) == Result::<NodeV, EvalError>::Ok(u),
    ensures
        eval_stmt(
            NodeV::Assignment {
                etype,
                ident,
                operator: AssignmentOperator::AddEqual,
                value: Box::new(v),
            },
            st,
        ) == eval_stmt(
            NodeV::Assignment {
                etype,
                ident,
                operator: AssignmentOperator::Equal,
                value: Box::new(u),
            },
            st,
        ),
{
}

/// Law: `x += v` on a name with no binding anywhere always fails with
/// `UndeclaredCompoundAssignment`, leaving the state unchanged.
pub proof fn lemma_compound_undeclared(
    etype: Option<eType>,
    ident: Seq<char>,
    v: NodeV,
    st: StateV,
)
    requires
        heap_find(st.heap, ident) is None,
    ensures
        eval_stmt(
            NodeV::Assignment {
                etype,
                ident,
                operator: AssignmentOperator::AddEqual,
                value: Box::new(v),
            },
            st,
        ) == (Option::Some(EvalError::UndeclaredCompoundAssignment), st),
{
}

/// Law: declaring the same identifier twice overwrites the previous binding
/// in the innermost scope, without error: both declarations succeed, a lookup
/// then yields the second value, every other name is untouched, and no scope
/// is added or removed.
pub proof fn lemma_redeclaration_overwrites(h: HeapV, k: Seq<char>, v1: NodeV, v2: NodeV)
    requires
        heap_wf(h),
    ensures
        ({
            let b1 = heap_bind(h, k, v1, true);
            let b2 = heap_bind(b1.unwrap(), k, v2, true);
            &&& b1 is Some
            &&& b2 is Some
            &&& heap_find(b2.unwrap(), k) == Option::Some(v2)
            &&& forall|q: Seq<char>|
                q != k ==> heap_find(b2.unwrap(), q) == heap_find(h, q)
            &&& b2.unwrap().len() == h.len()
        }),
{
    let h1 = heap_bind(h, k, v1, true).unwrap();
    lemma_bind_then_find(h, k, v1, true);
    lemma_bind_then_find(h1, k, v2, true);
}

/// Law: an update (a plain assignment without a type tag) to a name never
/// declared in any scope fails with `UndeclaredAssignment` and changes
/// nothing.
pub proof fn lemma_undeclared_assignment(ident: Seq<char>, v: NodeV, st: StateV)
    requires
        !heap_contains(st.heap, ident),
    ensures
        eval_stmt(
            NodeV::Assignment {
                etype: Option::None,
                ident,
                operator: AssignmentOperator::Equal,
                value: Box::new(v),
            },
            st,
        ) == (Option::Some(EvalError::UndeclaredAssignment), st),
{
    lemma_top_scope_with_props(st.heap, ident);
}

/// Law: logical chains are evaluated strictly left to right: evaluating a
/// chain `c1 + c2` from `cur` is evaluating `c1` from `cur` first and feeding
/// its outcome into `c2`, with the first error cutting the run short. There
/// is no precedence between the connectives.
pub proof fn lemma_chain_left_to_right(
    cur: bool,
    c1: Seq<(LogicalOperator, NodeV)>,
    c2: Seq<(LogicalOperator, NodeV)>,
    h: HeapV,
)
    ensures
        eval_chain(cur, c1 + c2, h) == (match eval_chain(cur, c1, h) {
            Result::Ok(m) => eval_chain(m, c2, h),
            Result::Err(e) => Result::Err(e),
        }),
    decreases c1.len(),
{
    if c1.len() == 0 {
        assert(c1 + c2 =~= c2);
    } else {
        assert((c1 + c2)[0] == c1[0]);
        assert((c1 + c2).drop_first() =~= c1.drop_first() + c2);
        match chain_step(cur, c1[0].0, c1[0].1, h) {
            Result::Ok(m) => {
                lemma_chain_left_to_right(m, c1.drop_first(), c2, h);
            },
            Result::Err(_) => {
            },
        }
    }
}

/// Law: an `If` body executes iff its chain evaluates to true, and it
/// executes in the very state of the surrounding code: no scope is pushed,
/// so body statements can rebind outer names. On false nothing runs and the
/// state is untouched; a chain error aborts the statement.
pub proof fn lemma_if_runs_body_iff_true(
    checks: Seq<(LogicalOperator, NodeV)>,
    body: Seq<NodeV>,
    st: StateV,
)
    ensures
        ({
            let stmt = NodeV::eIf(Box::new(NodeV::LogicalExpression(checks)), body);
            &&& eval_chain(true, checks, st.heap) == Result::<bool, EvalError>::Ok(true)
                ==> eval_stmt(stmt, st) == eval_stmts(body, st)
            &&& eval_chain(true, checks, st.heap) == Result::<bool, EvalError>::Ok(false)
                ==> eval_stmt(stmt, st) == (Option::None::<EvalError>, st)
            &&& forall|e: EvalError|
                eval_chain(true, checks, st.heap) == Result::<bool, EvalError>::Err(e)
                    ==> eval_stmt(stmt, st) == (Option::Some(e), st)
        }),
{
}

/// Law: calling a name that neither is bound as a variable nor names the
/// `Print` built-in fails with `UndefinedFunction`; calling `Print` with any
/// argument count other than one fails with `ArityError`. The state is
/// unchanged either way.
pub proof fn lemma_call_errors(ident: Seq<char>, args: Seq<NodeV>, st: StateV)
    ensures
        !heap_contains(st.heap, ident) && ident != "Print"@ ==> eval_stmt(
            NodeV::Call { ident, args },
            st,
        ) == (Option::Some(EvalError::UndefinedFunction), st),
        !heap_contains(st.heap, "Print"@) && args.len() != 1 ==> eval_stmt(
            NodeV::Call { ident: "Print"@, args },
            st,
        ) == (Option::Some(EvalError::ArityError), st),
{
}

} // verus!
