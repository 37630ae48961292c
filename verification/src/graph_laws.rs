//! Laws of the evaluation order: it ends with the node asked for, names each
//! node once, puts every node after the nodes that feed it, holds only nodes
//! that feed a later one, and exists whenever the part of the graph feeding
//! the node has no cycle.
use vstd::prelude::*;

use crate::graph::{GraphModel, InputEntry, NodeId};

verus! {

impl GraphModel {
    /// `y` feeds one of the inputs of `x`.
    pub open spec fn feeds(self, y: NodeId, x: NodeId) -> bool {
        exists|m: int|
            0 <= m < self.node_inputs(x).len() && self.source_of(
                #[trigger] self.node_inputs(x)[m].id,
            ) == Some(y)
    }

    /// Every node of `d` comes after each node that feeds it.
    pub open spec fn feeders_first(self, d: Seq<NodeId>) -> bool {
        forall|k: int, y: NodeId|
            0 <= k < d.len() && #[trigger] self.feeds(y, d[k]) ==> exists|j: int|
                0 <= j < k && d[j] == y
    }

    /// The node at index `k` of `d` feeds a node that comes later in `d`.
    pub open spec fn feeds_a_later(self, d: Seq<NodeId>, k: int) -> bool {
        exists|j: int| k < j < d.len() && #[trigger] self.feeds(d[k], d[j])
    }

    /// `y` feeds one of the inputs `ins[i..]`.
    pub open spec fn feeds_one_of(self, ins: Seq<InputEntry>, i: int, y: NodeId) -> bool {
        exists|m: int| i <= m < ins.len() && self.source_of(#[trigger] ins[m].id) == Some(y)
    }

    /// Every node of `d` from index `start` on, but the last, feeds a later one.
    pub open spec fn feeds_later(self, d: Seq<NodeId>, start: int) -> bool {
        forall|k: int| start <= k < d.len() - 1 ==> #[trigger] self.feeds_a_later(d, k)
    }

    /// Every node that feeds `x`, directly or not, ranks below the node it
    /// feeds: the part of the graph feeding `x` has no cycle.
    pub open spec fn ranked_from(self, rank: spec_fn(NodeId) -> nat, x: NodeId) -> bool
        decreases rank(x),
    {
        forall|y: NodeId| #[trigger] self.feeds(y, x) ==> rank(y) < rank(x) && self.ranked_from(rank, y)
    }
}

/// What `visit_inputs` adds, given the state it starts from.
pub open spec fn inputs_outcome(
    g: GraphModel,
    ins: Seq<InputEntry>,
    i: int,
    path: Seq<NodeId>,
    done: Seq<NodeId>,
    d: Seq<NodeId>,
) -> bool {
    &&& d.len() >= done.len()
    &&& d.subrange(0, done.len() as int) == done
    &&& d.no_duplicates()
    &&& forall|k: int| done.len() <= k < d.len() ==> !path.contains(#[trigger] d[k])
    &&& g.feeders_first(d)
    &&& forall|m: int|
        i <= m < ins.len() && (#[trigger] g.source_of(ins[m].id)) is Some ==> d.contains(
            g.source_of(ins[m].id)->0,
        )
    &&& forall|k: int|
        #![trigger d[k]]
        done.len() <= k < d.len() ==> g.feeds_a_later(d, k) || g.feeds_one_of(ins, i, d[k])
}

/// What `visit` adds, given the state it starts from.
pub open spec fn visit_outcome(
    g: GraphModel,
    n: NodeId,
    path: Seq<NodeId>,
    done: Seq<NodeId>,
    d: Seq<NodeId>,
) -> bool {
    &&& d.len() > done.len()
    &&& d.subrange(0, done.len() as int) == done
    &&& d.last() == n
    &&& d.no_duplicates()
    &&& forall|k: int| done.len() <= k < d.len() ==> !path.contains(#[trigger] d[k])
    &&& g.feeders_first(d)
    &&& g.feeds_later(d, done.len() as int)
}

proof fn lemma_push_feeds_later(g: GraphModel, d1: Seq<NodeId>, n: NodeId, start: int)
    requires
        0 <= start,
        forall|k: int|
            #![trigger d1[k]]
            start <= k < d1.len() ==> g.feeds_a_later(d1, k) || g.feeds(d1[k], n),
    ensures
        g.feeds_later(d1.push(n), start),
{
    let d = d1.push(n);
    assert forall|k: int| start <= k < d.len() - 1 implies #[trigger] g.feeds_a_later(d, k) by {
        assert(d[k] == d1[k]);
        if g.feeds_a_later(d1, k) {
            let j = choose|j: int| k < j < d1.len() && #[trigger] g.feeds(d1[k], d1[j]);
            assert(d[j] == d1[j]);
            assert(g.feeds(d[k], d[j]));
        } else {
            assert(d[d.len() - 1] == n);
            assert(g.feeds(d[k], d[d.len() - 1]));
        }
    }
}

proof fn lemma_visit(g: GraphModel, n: NodeId, fuel: nat, path: Seq<NodeId>, done: Seq<NodeId>)
    requires
        !done.contains(n),
        done.no_duplicates(),
        g.feeders_first(done),
    ensures
        g.visit(n, fuel, path, done) matches Some(d) ==> visit_outcome(g, n, path, done, d),
    decreases fuel, 0nat,
{
    if fuel > 0 && !path.contains(n) {
        let ins = g.node_inputs(n);
        let p2 = path.push(n);
        lemma_visit_inputs(g, n, ins, 0, (fuel - 1) as nat, p2, done);
        if let Some(d1) = g.visit_inputs(n, ins, 0, (fuel - 1) as nat, p2, done) {
            let d = d1.push(n);
            assert(!d1.contains(n)) by {
                if d1.contains(n) {
                    let k = choose|k: int| 0 <= k < d1.len() && d1[k] == n;
                    if k < done.len() {
                        assert(d1.subrange(0, done.len() as int)[k] == d1[k]);
                    } else {
                        assert(!p2.contains(d1[k]));
                        assert(p2[p2.len() - 1] == n);
                    }
                }
            }
            assert(d.subrange(0, done.len() as int) =~= d1.subrange(0, done.len() as int));
            assert(d.no_duplicates()) by {
                assert forall|a: int, b: int|
                    0 <= a < d.len() && 0 <= b < d.len() && a != b implies d[a] != d[b] by {
                    if a < d1.len() && b < d1.len() {
                        assert(d[a] == d1[a] && d[b] == d1[b]);
                    } else if a == d1.len() {
                        assert(d1[b] != n);
                    } else {
                        assert(d1[a] != n);
                    }
                }
            }
            assert forall|k: int| done.len() <= k < d.len() implies !path.contains(#[trigger] d[k]) by {
                if k < d1.len() {
                    assert(d[k] == d1[k]);
                    if path.contains(d1[k]) {
                        let j = choose|j: int| 0 <= j < path.len() && path[j] == d1[k];
                        assert(p2[j] == d1[k]);
                    }
                }
            }
            assert(g.feeders_first(d)) by {
                assert forall|k: int, y: NodeId|
                    0 <= k < d.len() && #[trigger] g.feeds(y, d[k]) implies exists|j: int|
                        0 <= j < k && d[j] == y by {
                    if k < d1.len() {
                        assert(d[k] == d1[k]);
                        let j = choose|j: int| 0 <= j < k && d1[j] == y;
                        assert(d[j] == y);
                    } else {
                        assert(d[k] == n);
                        let m = choose|m: int|
                            0 <= m < ins.len() && g.source_of(#[trigger] ins[m].id) == Some(y);
                        assert(g.source_of(ins[m].id) is Some);
                        assert(d1.contains(y));
                        let j = choose|j: int| 0 <= j < d1.len() && d1[j] == y;
                        assert(d[j] == y);
                    }
                }
            }
            assert forall|k: int| #![trigger d1[k]] done.len() <= k < d1.len() implies g.feeds_a_later(d1, k) || g.feeds(d1[k], n) by {
                if !g.feeds_a_later(d1, k) {
                    assert(g.feeds_one_of(ins, 0, d1[k]));
                    let m = choose|m: int|
                        0 <= m < ins.len() && g.source_of(#[trigger] ins[m].id) == Some(d1[k]);
                    assert(g.source_of(g.node_inputs(n)[m].id) == Some(d1[k]));
                }
            }
            lemma_push_feeds_later(g, d1, n, done.len() as int);
            assert(g.feeds_later(d, done.len() as int));
        }
    }
}

proof fn lemma_visit_inputs(
    g: GraphModel,
    n: NodeId,
    ins: Seq<InputEntry>,
    i: int,
    fuel: nat,
    path: Seq<NodeId>,
    done: Seq<NodeId>,
)
    requires
        0 <= i,
        done.no_duplicates(),
        g.feeders_first(done),
    ensures
        g.visit_inputs(n, ins, i, fuel, path, done) matches Some(d) ==> inputs_outcome(
            g,
            ins,
            i,
            path,
            done,
            d,
        ),
    decreases fuel, (if i < 0 { 0 } else { ins.len() - i }) + 1,
{
    if i >= ins.len() {
        assert(done.subrange(0, done.len() as int) =~= done);
    } else {
        let (next, d0) = match g.source_of(ins[i].id) {
            None => (g.visit_inputs(n, ins, i + 1, fuel, path, done), done),
            Some(s) => if done.contains(s) {
                (g.visit_inputs(n, ins, i + 1, fuel, path, done), done)
            } else {
                match g.visit(s, fuel, path, done) {
                    Some(d1) => (g.visit_inputs(n, ins, i + 1, fuel, path, d1), d1),
                    None => (None, done),
                }
            },
        };
        assert(g.visit_inputs(n, ins, i, fuel, path, done) == next);
        if let Some(s) = g.source_of(ins[i].id) {
            if !done.contains(s) {
                lemma_visit(g, s, fuel, path, done);
            }
        }
        if let Some(d) = next {
            // `d0` is `done` with what evaluating the source of `ins[i]` added
            assert(d0.len() >= done.len() && d0.subrange(0, done.len() as int) == done
                && d0.no_duplicates() && g.feeders_first(d0));
            lemma_visit_inputs(g, n, ins, i + 1, fuel, path, d0);
            assert(inputs_outcome(g, ins, i + 1, path, d0, d));
            assert(d.subrange(0, done.len() as int) =~= d.subrange(0, d0.len() as int).subrange(
                0,
                done.len() as int,
            ));
            assert forall|k: int| done.len() <= k < d.len() implies !path.contains(#[trigger] d[k]) by {
                if k < d0.len() {
                    assert(d.subrange(0, d0.len() as int)[k] == d[k]);
                }
            }
            if let Some(s) = g.source_of(ins[i].id) {
                assert(d0.contains(s));
                let j = choose|j: int| 0 <= j < d0.len() && d0[j] == s;
                assert(d.subrange(0, d0.len() as int)[j] == d[j]);
                assert(d.contains(s));
            }
            assert forall|m: int|
                i <= m < ins.len() && (#[trigger] g.source_of(ins[m].id)) is Some implies d.contains(
                g.source_of(ins[m].id)->0,
            ) by {
                if m > i {
                }
            }
            assert forall|k: int| #![trigger d[k]] done.len() <= k < d.len() implies g.feeds_a_later(d, k)
                || g.feeds_one_of(ins, i, d[k]) by {
                if k < d0.len() {
                    assert(d.subrange(0, d0.len() as int)[k] == d[k]);
                    assert(d0[k] == d[k]);
                    if k < d0.len() - 1 {
                        assert(g.feeds_a_later(d0, k));
                        let j = choose|j: int| k < j < d0.len() && #[trigger] g.feeds(d0[k], d0[j]);
                        assert(d.subrange(0, d0.len() as int)[j] == d[j]);
                        assert(g.feeds(d[k], d[j]));
                    } else {
                        assert(g.source_of(ins[i].id) == Some(d[k]));
                    }
                } else if !g.feeds_a_later(d, k) {
                    assert(g.feeds_one_of(ins, i + 1, d[k]));
                    let m = choose|m: int|
                        i + 1 <= m < ins.len() && g.source_of(#[trigger] ins[m].id) == Some(d[k]);
                    assert(i <= m);
                }
            }
        }
    }
}

proof fn lemma_visit_some(
    g: GraphModel,
    rank: spec_fn(NodeId) -> nat,
    n: NodeId,
    fuel: nat,
    path: Seq<NodeId>,
    done: Seq<NodeId>,
)
    requires
        g.ranked_from(rank, n),
        rank(n) < fuel,
        forall|j: int| 0 <= j < path.len() ==> rank(#[trigger] path[j]) > rank(n),
    ensures
        g.visit(n, fuel, path, done) is Some,
    decreases fuel, 0nat,
{
    assert(!path.contains(n));
    let p2 = path.push(n);
    assert forall|j: int| 0 <= j < p2.len() implies rank(#[trigger] p2[j]) >= rank(n) by {
        if j < path.len() {
            assert(p2[j] == path[j]);
        }
    }
    lemma_visit_inputs_some(g, rank, n, g.node_inputs(n), 0, (fuel - 1) as nat, p2, done);
}

proof fn lemma_visit_inputs_some(
    g: GraphModel,
    rank: spec_fn(NodeId) -> nat,
    n: NodeId,
    ins: Seq<InputEntry>,
    i: int,
    fuel: nat,
    path: Seq<NodeId>,
    done: Seq<NodeId>,
)
    requires
        g.ranked_from(rank, n),
        ins == g.node_inputs(n),
        rank(n) <= fuel,
        0 <= i,
        forall|j: int| 0 <= j < path.len() ==> rank(#[trigger] path[j]) >= rank(n),
    ensures
        g.visit_inputs(n, ins, i, fuel, path, done) is Some,
    decreases fuel, (if i < 0 { 0 } else { ins.len() - i }) + 1,
{
    if i < ins.len() {
        match g.source_of(ins[i].id) {
            None => {
                lemma_visit_inputs_some(g, rank, n, ins, i + 1, fuel, path, done);
            },
            Some(s) => {
                if done.contains(s) {
                    lemma_visit_inputs_some(g, rank, n, ins, i + 1, fuel, path, done);
                } else {
                    assert(g.feeds(s, n)) by {
                        assert(g.source_of(g.node_inputs(n)[i].id) == Some(s));
                    }
                    lemma_visit_some(g, rank, s, fuel, path, done);
                    let d1 = g.visit(s, fuel, path, done)->0;
                    lemma_visit_inputs_some(g, rank, n, ins, i + 1, fuel, path, d1);
                }
            },
        }
    }
}

/// Law of the evaluation order: where it exists, it ends with the node asked
/// for, names each node once, puts every node after each node that feeds one of
/// its inputs, and holds only nodes that feed a node after them, but the last.
pub proof fn law_evaluation_order(g: GraphModel, root: NodeId)
    ensures
        g.evaluation_order_spec(root) matches Some(d) ==> {
            &&& d.len() >= 1
            &&& d.last() == root
            &&& d.no_duplicates()
            &&& g.feeders_first(d)
            &&& g.feeds_later(d, 0)
        },
{
    let empty = Seq::<NodeId>::empty();
    lemma_visit(g, root, (g.nodes@.len() + 1) as nat, empty, empty);
}

/// Law of the evaluation order: a node has one wherever the nodes feeding it,
/// directly or not, can be ranked, no higher than the number of nodes, so that
/// each ranks below the node it feeds (the part of the graph feeding it has no
/// cycle, whatever the rest of the graph holds).
pub proof fn law_evaluation_order_exists(g: GraphModel, root: NodeId, rank: spec_fn(NodeId) -> nat)
    requires
        g.ranked_from(rank, root),
        rank(root) <= g.nodes@.len(),
    ensures
        g.evaluation_order_spec(root) is Some,
{
    lemma_visit_some(g, rank, root, (g.nodes@.len() + 1) as nat, Seq::empty(), Seq::empty());
}

} // verus!
