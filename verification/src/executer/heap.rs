//! The scope store: a stack of lexical scopes, innermost last.
//!
//! Each scope keeps its bindings in the order they were made; the latest
//! entry for a name shadows the earlier ones, so rebinding appends.

use crate::parser::node::{Node, NodeV};
use crate::text::str_eq;
use vstd::prelude::*;

verus! {

/// The mathematical mirror of the whole store: scopes of (name, value) pairs.
pub type HeapV = Seq<Seq<(Seq<char>, NodeV)>>;

/// The mirror of one scope.
pub open spec fn scope_view(sc: Seq<(String, Box<Node>)>) -> Seq<(Seq<char>, NodeV)> {
    sc.map_values(|p: (String, Box<Node>)| (p.0@, p.1.deep_view()))
}

/// The value bound to `k` in one scope: the latest entry wins.
pub open spec fn scope_find(sc: Seq<(Seq<char>, NodeV)>, k: Seq<char>) -> Option<NodeV>
    decreases sc.len(),
{
    if sc.len() == 0 {
        Option::None
    } else if sc.last().0 == k {
        Option::Some(sc.last().1)
    } else {
        scope_find(sc.drop_last(), k)
    }
}

/// The value bound to `k`, searching scopes innermost to outermost.
pub open spec fn heap_find(h: HeapV, k: Seq<char>) -> Option<NodeV>
    decreases h.len(),
{
    if h.len() == 0 {
        Option::None
    } else {
        match scope_find(h.last(), k) {
            Option::Some(v) => Option::Some(v),
            Option::None => heap_find(h.drop_last(), k),
        }
    }
}

/// Whether any scope binds `k`.
pub open spec fn heap_contains(h: HeapV, k: Seq<char>) -> bool {
    heap_find(h, k) is Some
}

/// The index of the innermost scope binding `k`, or -1 when none does.
pub open spec fn top_scope_with(h: HeapV, k: Seq<char>) -> int
    decreases h.len(),
{
    if h.len() == 0 {
        -1
    } else if scope_find(h.last(), k) is Some {
        h.len() - 1
    } else {
        top_scope_with(h.drop_last(), k)
    }
}

/// What binding does to the store: a declaration appends to the innermost
/// scope; an update appends to the innermost scope that already binds the
/// name, and fails when none does.
pub open spec fn heap_bind(h: HeapV, k: Seq<char>, v: NodeV, declare: bool) -> Option<HeapV> {
    if declare {
        if h.len() == 0 {
            Option::None
        } else {
            Option::Some(h.update(h.len() - 1, h[h.len() - 1].push((k, v))))
        }
    } else {
        let j = top_scope_with(h, k);
        if j < 0 {
            Option::None
        } else {
            Option::Some(h.update(j, h[j].push((k, v))))
        }
    }
}

/// A store is well formed while its root scope is still there.
pub open spec fn heap_wf(h: HeapV) -> bool {
    h.len() >= 1
}

/// The innermost scope binding `k` is in range, binds `k`, is where a lookup
/// lands, and no scope above it binds `k`; it exists exactly when some scope
/// binds `k`.
pub proof fn lemma_top_scope_with_props(h: HeapV, k: Seq<char>)
    ensures
        -1 <= top_scope_with(h, k) < h.len(),
        top_scope_with(h, k) >= 0 ==> scope_find(h[top_scope_with(h, k)], k) is Some,
        (top_scope_with(h, k) >= 0) == heap_contains(h, k),
        forall|i: int| top_scope_with(h, k) < i < h.len() ==> scope_find(#[trigger] h[i], k) is None,
        heap_contains(h, k) ==> heap_find(h, k) == scope_find(h[top_scope_with(h, k)], k),
    decreases h.len(),
{
    if h.len() > 0 {
        assert(h[h.len() - 1] == h.last());
        if scope_find(h.last(), k) is None {
            lemma_top_scope_with_props(h.drop_last(), k);
        }
    }
    assert forall|i: int|
        top_scope_with(h, k) < i < h.len() implies scope_find(#[trigger] h[i], k) is None by {
        if i == h.len() - 1 {
            if scope_find(h.last(), k) is Some {
                assert(top_scope_with(h, k) == h.len() - 1);
                assert(false);
            }
            assert(h[i] == h.last());
        } else {
            if scope_find(h.last(), k) is Some {
                assert(top_scope_with(h, k) == h.len() - 1);
                assert(false);
            }
            assert(h.drop_last() =~= h.subrange(0, h.len() - 1));
            assert(0 <= i < h.subrange(0, h.len() - 1).len());
            assert(h.subrange(0, h.len() - 1)[i] == h[i]);
            assert(top_scope_with(h.drop_last(), k) == top_scope_with(h, k));
            assert(scope_find(h.drop_last()[i], k) is None);
        }
    }
}

/// After appending a binding for `k` to scope `j`, a lookup of `k` yields the
/// new value, provided no scope above `j` binds `k`.
pub proof fn lemma_update_push_find_same(h: HeapV, j: int, k: Seq<char>, v: NodeV)
    requires
        0 <= j < h.len(),
        forall|i: int| j < i < h.len() ==> scope_find(#[trigger] h[i], k) is None,
    ensures
        heap_find(h.update(j, h[j].push((k, v))), k) == Option::Some(v),
    decreases h.len(),
{
    let h2 = h.update(j, h[j].push((k, v)));
    if j == h.len() - 1 {
        assert(h2.last() == h[j].push((k, v)));
        assert(scope_find(h2.last(), k) == Option::Some(v));
    } else {
        assert(h2.last() == h.last());
        assert(scope_find(h2.last(), k) is None);
        assert(h2.drop_last() =~= h.drop_last().update(j, h.drop_last()[j].push((k, v))));
        assert(forall|i: int|
            0 <= i < h.len() - 1 ==> #[trigger] h.drop_last()[i] == h[i]);
        lemma_update_push_find_same(h.drop_last(), j, k, v);
    }
}

/// Appending a binding for `k` to any scope leaves every other name's lookup
/// unchanged.
pub proof fn lemma_update_push_find_other(h: HeapV, j: int, k: Seq<char>, v: NodeV, q: Seq<char>)
    requires
        0 <= j < h.len(),
        q != k,
    ensures
        heap_find(h.update(j, h[j].push((k, v))), q) == heap_find(h, q),
    decreases h.len(),
{
    let h2 = h.update(j, h[j].push((k, v)));
    if j == h.len() - 1 {
        assert(h2.last() == h[j].push((k, v)));
        assert(h[j].push((k, v)).drop_last() =~= h[j]);
        assert(h.last() == h[j]);
        assert(scope_find(h2.last(), q) == scope_find(h.last(), q));
        assert(h2.drop_last() =~= h.drop_last());
    } else {
        assert(h2.last() == h.last());
        assert(h2.drop_last() =~= h.drop_last().update(j, h.drop_last()[j].push((k, v))));
        lemma_update_push_find_other(h.drop_last(), j, k, v, q);
    }
}

/// A lookup after a successful bind of `k` yields the bound value, and every
/// other name's lookup is unchanged.
pub proof fn lemma_bind_then_find(h: HeapV, k: Seq<char>, v: NodeV, declare: bool)
    requires
        heap_bind(h, k, v, declare) is Some,
    ensures
        heap_find(heap_bind(h, k, v, declare).unwrap(), k) == Option::Some(v),
        forall|q: Seq<char>|
            q != k ==> heap_find(heap_bind(h, k, v, declare).unwrap(), q) == heap_find(h, q),
        heap_bind(h, k, v, declare).unwrap().len() == h.len(),
{
    lemma_top_scope_with_props(h, k);
    let j: int = if declare {
        h.len() - 1
    } else {
        top_scope_with(h, k)
    };
    if declare {
        assert(forall|i: int| j < i < h.len() ==> scope_find(#[trigger] h[i], k) is None);
    }
    lemma_update_push_find_same(h, j, k, v);
    assert forall|q: Seq<char>| q != k implies heap_find(
        heap_bind(h, k, v, declare).unwrap(),
        q,
    ) == heap_find(h, q) by {
        lemma_update_push_find_other(h, j, k, v, q);
    }
}

/// The stack of lexical scopes a run binds and reads variables in.
pub struct Heap {
    scopes: Vec<Vec<(String, Box<Node>)>>,
}

impl View for Heap {
    type V = HeapV;

    closed spec fn view(&self) -> HeapV {
        self.scopes@.map_values(|sc: Vec<(String, Box<Node>)>| scope_view(sc@))
    }
}

/// Finds the latest entry for `key` in one scope, scanning from the back.
fn scope_lookup(sc: &Vec<(String, Box<Node>)>, key: &str) -> (r: Option<usize>)
    ensures
        match r {
            Option::Some(i) => i < sc.len() && sc@[i as int].0@ == key@ && scope_find(
                scope_view(sc@),
                key@,
            ) == Option::Some(sc@[i as int].1.deep_view()),
            Option::None => scope_find(scope_view(sc@), key@) is None,
        },
{
    let ghost sv = scope_view(sc@);
    let mut i: usize = sc.len();
    proof {
        assert(sv.take(sv.len() as int) =~= sv);
    }
    while i > 0
        invariant
            i <= sc.len(),
            sv == scope_view(sc@),
            sv.len() == sc.len(),
            scope_find(sv, key@) == scope_find(sv.take(i as int), key@),
        decreases i,
    {
        i = i - 1;
        proof {
            assert(sv.take(i + 1).last() == sv[i as int]);
            assert(sv.take(i + 1).drop_last() =~= sv.take(i as int));
        }
        if str_eq(sc[i].0.as_str(), key) {
            return Option::Some(i);
        }
    }
    proof {
        assert(sv.take(0).len() == 0);
    }
    Option::None
}

impl Heap {
    /// A fresh store holding one empty root scope.
    pub fn new() -> (r: Self)
        ensures
            r@.len() == 1,
            r@[0] == Seq::<(Seq<char>, NodeV)>::empty(),
            forall|k: Seq<char>| heap_find(r@, k) is None,
    {
        let mut scopes: Vec<Vec<(String, Box<Node>)>> = Vec::new();
        scopes.push(Vec::new());
        let r = Heap { scopes };
        proof {
            assert(r@[0] =~= Seq::<(Seq<char>, NodeV)>::empty());
            assert forall|k: Seq<char>| heap_find(r@, k) is None by {
                reveal_with_fuel(heap_find, 3);
                assert(r@.last() == r@[0]);
                assert(scope_find(r@[0], k) is None);
                assert(r@.drop_last().len() == 0);
            }
        }
        r
    }

    /// Enters a nested scope.
    pub fn lower(&mut self)
        ensures
            final(self)@ == old(self)@.push(Seq::empty()),
    {
        self.scopes.push(Vec::new());
        proof {
            assert(self@ =~~= old(self)@.push(Seq::empty()));
        }
    }

    /// Leaves the innermost scope. The root scope is never removed.
    pub fn higher(&mut self)
        requires
            old(self)@.len() >= 2,
        ensures
            final(self)@ == old(self)@.drop_last(),
    {
        let _ = self.scopes.pop();
        proof {
            assert(self@ =~= old(self)@.drop_last());
        }
    }

    /// Reads the binding for `key`, innermost scope first.
    pub fn get_variable(&self, key: &str) -> (r: Option<&Node>)
        ensures
            match r {
                Option::Some(n) => heap_find(self@, key@) == Option::Some(n.deep_view()),
                Option::None => heap_find(self@, key@) is None,
            },
    {
        let ghost hv = self@;
        let mut j: usize = self.scopes.len();
        proof {
            assert(hv.take(hv.len() as int) =~= hv);
        }
        while j > 0
            invariant
                j <= self.scopes.len(),
                hv == self@,
                hv.len() == self.scopes.len(),
                heap_find(hv, key@) == heap_find(hv.take(j as int), key@),
            decreases j,
        {
            j = j - 1;
            proof {
                assert(hv.take(j + 1).last() == hv[j as int]);
                assert(hv.take(j + 1).drop_last() =~= hv.take(j as int));
                assert(hv[j as int] == scope_view(self.scopes@[j as int]@));
            }
            if let Option::Some(i) = scope_lookup(&self.scopes[j], key) {
                return Option::Some(&self.scopes[j][i].1);
            }
        }
        proof {
            assert(hv.take(0).len() == 0);
        }
        Option::None
    }

    /// Binds `key` to `value` exactly as [`heap_bind`] says: declarations go
    /// to the innermost scope, updates to the innermost scope already holding
    /// the name; an update to a name bound nowhere fails and changes nothing.
    pub fn set_variable(&mut self, key: &str, value: Box<Node>, declare: bool) -> (r: Result<
        (),
        (),
    >)
        requires
            heap_wf(old(self)@),
        ensures
            match r {
                Result::Ok(()) => heap_bind(old(self)@, key@, value.deep_view(), declare)
                    == Option::Some(final(self)@) && final(self)@.len() == old(self)@.len(),
                Result::Err(()) => final(self)@ == old(self)@ && heap_bind(
                    old(self)@,
                    key@,
                    value.deep_view(),
                    declare,
                ) is None,
            },
    {
        let ghost hv = self@;
        let ghost vv = value.deep_view();
        if declare {
            let mut sc = self.scopes.pop().unwrap();
            sc.push((key.to_owned(), value));
            self.scopes.push(sc);
            proof {
                assert(scope_view(sc@) =~~= hv[hv.len() - 1].push((key@, vv)));
                assert(self@ =~~= hv.update(hv.len() - 1, hv[hv.len() - 1].push((key@, vv))));
            }
            return Result::Ok(());
        }
        let mut j: usize = self.scopes.len();
        proof {
            assert(hv.take(hv.len() as int) =~= hv);
        }
        while j > 0
            invariant
                j <= self.scopes.len(),
                hv == self@,
                hv.len() == self.scopes.len(),
                self == old(self),
                !declare,
                vv == value.deep_view(),
                top_scope_with(hv, key@) == top_scope_with(hv.take(j as int), key@),
            decreases j,
        {
            j = j - 1;
            proof {
                assert(hv.take(j + 1).last() == hv[j as int]);
                assert(hv.take(j + 1).drop_last() =~= hv.take(j as int));
                assert(hv[j as int] == scope_view(self.scopes@[j as int]@));
            }
            let found = scope_lookup(&self.scopes[j], key);
            if found.is_some() {
                proof {
                    assert(top_scope_with(hv, key@) == j);
                }
                let mut sc = self.scopes.remove(j);
                let ghost scv = scope_view(sc@);
                sc.push((key.to_owned(), value));
                self.scopes.insert(j, sc);
                proof {
                    assert(hv == old(self)@);
                    assert(scope_view(sc@) =~~= scv.push((key@, vv)));
                    assert(scv == hv[j as int]);
                    assert(self@ =~~= hv.update(j as int, hv[j as int].push((key@, vv))));
                    assert(heap_bind(hv, key@, vv, false) == Option::Some(self@));
                }
                return Result::Ok(());
            }
        }
        proof {
            assert(hv.take(0).len() == 0);
        }
        Result::Err(())
    }
}

} // verus!
