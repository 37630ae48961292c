//! Changing the graph: adding a node built from its kind, connecting an output
//! to an input, and adding a node picked in the editor together with the
//! connection it was picked for.
use vstd::prelude::*;

use crate::connections::{ConnectionType, InputParamKind, InputDef};
use crate::editor::{add_node_changes, connection_for_new_node, first_input_of_type, plan_add_node};
use crate::events::{AnyParameterId, GraphChangeEvent};
use crate::graph::{
    find_connection_from, find_node_from, find_output_from, GraphModel, InputEntry, InputId, NodeEntry, NodeId,
    OutputEntry, OutputId,
};
use crate::isf::isf_inputs;
use crate::node_types::{input_types_of, params_of, NodeType};

verus! {

/// The number of input definitions a kind of node has.
pub open spec fn input_def_count(t: NodeType) -> nat {
    match t {
        NodeType::Isf { info } => isf_inputs(info.def).len(),
        NodeType::SharedOut => 2,
        NodeType::ObjRender => 3,
        NodeType::Expression { .. } => 2,
    }
}

/// Every key of the graph's nodes, inputs and outputs is below `k`.
pub open spec fn keys_below(g: GraphModel, k: u64) -> bool {
    &&& forall|i: int| 0 <= i < g.nodes@.len() ==> (#[trigger] g.nodes@[i]).id.key < k
    &&& forall|i: int, a: int|
        0 <= i < g.nodes@.len() && 0 <= a < g.nodes@[i].inputs@.len() ==> (#[trigger] g.nodes@[i].inputs@[a]).id.key < k
    &&& forall|j: int| 0 <= j < g.outputs@.len() ==> (#[trigger] g.outputs@[j]).id.key < k
}

/// The graph is well formed: its nodes, inputs and outputs each have ids of
/// their own, an input has at most one connection, every connection ends at an
/// output of the graph, and every output belongs to a node of the graph.
pub open spec fn well_formed(g: GraphModel) -> bool {
    &&& forall|i: int, j: int|
        0 <= i < j < g.nodes@.len() ==> (#[trigger] g.nodes@[i]).id != (#[trigger] g.nodes@[j]).id
    &&& forall|i: int, a: int, j: int, b: int|
        0 <= i < g.nodes@.len() && 0 <= j < g.nodes@.len() && 0 <= a < g.nodes@[i].inputs@.len() && 0 <= b
            < g.nodes@[j].inputs@.len() && (i != j || a != b) ==> (#[trigger] g.nodes@[i].inputs@[a]).id
            != (#[trigger] g.nodes@[j].inputs@[b]).id
    &&& forall|i: int, j: int|
        0 <= i < j < g.outputs@.len() ==> (#[trigger] g.outputs@[i]).id != (#[trigger] g.outputs@[j]).id
    &&& forall|i: int, j: int|
        0 <= i < j < g.connections@.len() ==> (#[trigger] g.connections@[i]).0 != (#[trigger] g.connections@[j]).0
    &&& g.connections_fit()
    &&& forall|j: int| 0 <= j < g.outputs@.len() ==> exists|i: int|
        0 <= i < g.nodes@.len() && #[trigger] g.nodes@[i].id == (#[trigger] g.outputs@[j]).node
}

/// `ins` are the inputs made from the parameters `params`, keyed from `first` on.
pub open spec fn inputs_from_params(ins: Seq<InputEntry>, params: Seq<(InputDef, InputParamKind)>, first: u64) -> bool {
    &&& ins.len() == params.len()
    &&& forall|a: int|
        0 <= a < ins.len() ==> (#[trigger] ins[a]).name@ == params[a].0.name@ && ins[a].typ == params[a].0.ty
            && ins[a].id.key == first + a
}

proof fn lemma_params_len(defs: Seq<InputDef>)
    ensures
        params_of(defs).len() <= defs.len(),
    decreases defs.len(),
{
    if defs.len() > 0 {
        lemma_params_len(defs.drop_last());
    }
}

proof fn lemma_input_defs_len(t: NodeType, defs: Seq<InputDef>)
    requires
        input_types_of(t, defs),
    ensures
        defs.len() == input_def_count(t),
{
}

proof fn lemma_find_node_push(s: Seq<NodeEntry>, x: NodeEntry, n: NodeId, k: int)
    requires
        0 <= k <= s.len(),
    ensures
        find_node_from(s.push(x), n, k) == match find_node_from(s, n, k) {
            Some(i) => Some(i),
            None => if x.id == n { Some(s.len() as int) } else { None },
        },
    decreases s.len() - k,
{
    if k < s.len() {
        assert(s.push(x)[k] == s[k]);
        lemma_find_node_push(s, x, n, k + 1);
    } else {
        assert(s.push(x)[k] == x);
        assert(find_node_from(s.push(x), n, k + 1) is None);
    }
}

proof fn lemma_find_output_push(s: Seq<OutputEntry>, x: OutputEntry, o: OutputId, k: int)
    requires
        0 <= k <= s.len(),
    ensures
        find_output_from(s.push(x), o, k) == match find_output_from(s, o, k) {
            Some(i) => Some(i),
            None => if x.id == o { Some(s.len() as int) } else { None },
        },
    decreases s.len() - k,
{
    if k < s.len() {
        assert(s.push(x)[k] == s[k]);
        lemma_find_output_push(s, x, o, k + 1);
    } else {
        assert(s.push(x)[k] == x);
        assert(find_output_from(s.push(x), o, k + 1) is None);
    }
}

proof fn lemma_find_connection_push(s: Seq<(InputId, OutputId)>, x: (InputId, OutputId), n: InputId, k: int)
    requires
        0 <= k <= s.len(),
    ensures
        find_connection_from(s.push(x), n, k) == match find_connection_from(s, n, k) {
            Some(i) => Some(i),
            None => if x.0 == n { Some(s.len() as int) } else { None },
        },
    decreases s.len() - k,
{
    if k < s.len() {
        assert(s.push(x)[k] == s[k]);
        lemma_find_connection_push(s, x, n, k + 1);
    } else {
        assert(s.push(x)[k] == x);
        assert(find_connection_from(s.push(x), n, k + 1) is None);
    }
}

proof fn lemma_find_connection_update(s: Seq<(InputId, OutputId)>, idx: int, o: OutputId, n: InputId, k: int)
    requires
        0 <= idx < s.len(),
        0 <= k <= s.len(),
    ensures
        find_connection_from(s.update(idx, (s[idx].0, o)), n, k) == find_connection_from(s, n, k),
    decreases s.len() - k,
{
    if k < s.len() {
        lemma_find_connection_update(s, idx, o, n, k + 1);
    }
}

/// `h` is `g` with a node of kind `template` added with id `n` (the key
/// `next_key`): the node comes last, with an input for each parameter of its
/// kind keyed from the next key on, then its output where it has one; `next`
/// is the first key left free.
pub open spec fn node_added(g: GraphModel, h: GraphModel, template: NodeType, next_key: u64, n: NodeId, next: u64) -> bool {
    &&& n == (NodeId { key: next_key })
    &&& !g.has_node(n)
    &&& h.nodes@.len() == g.nodes@.len() + 1
    &&& h.nodes@.drop_last() == g.nodes@
    &&& h.nodes@.last().id == n
    &&& h.nodes@.last().template == template
    &&& h.node_inputs(n) == h.nodes@.last().inputs@
    &&& exists|defs: Seq<InputDef>|
        input_types_of(template, defs) && inputs_from_params(
            h.nodes@.last().inputs@,
            params_of(defs),
            (next_key + 1) as u64,
        )
    &&& ({
        let after_inputs = next_key + 1 + h.nodes@.last().inputs@.len();
        if template is SharedOut {
            &&& h.outputs@ == g.outputs@
            &&& next == after_inputs
        } else {
            &&& h.outputs@ == g.outputs@.push(
                OutputEntry { id: OutputId { key: after_inputs as u64 }, node: n, typ: ConnectionType::Texture2D },
            )
            &&& next == after_inputs + 1
        }
    })
}

impl GraphModel {
    /// Adds a node of kind `template`, with the id `next_key` and, from the
    /// next key on, an input for each of its parameters (see `node_params`) and
    /// its output, where it has one; nothing else changes. Gives the node's id
    /// and the first key left free. `next_key` must be above every key in use,
    /// with room for the new ones.
    pub fn add_node(&mut self, template: NodeType, next_key: u64) -> (r: (NodeId, u64))
        requires
            keys_below(*old(self), next_key),
            next_key + input_def_count(template) + 2 <= u64::MAX,
        ensures
            node_added(*old(self), *final(self), template, next_key, r.0, r.1),
            final(self).connections@ == old(self).connections@,
            keys_below(*final(self), r.1),
            well_formed(*old(self)) ==> well_formed(*final(self)),
    {
        let (params, outs) = template.node_params();
        let ghost defs = choose|defs: Seq<InputDef>| input_types_of(template, defs) && params@ == params_of(defs);
        proof {
            lemma_params_len(defs);
            lemma_input_defs_len(template, defs);
        }
        let node_id = NodeId { key: next_key };
        let mut key = next_key + 1;
        let mut inputs: Vec<InputEntry> = Vec::new();
        let mut a: usize = 0;
        while a < params.len()
            invariant
                params@.len() <= input_def_count(template),
                next_key + input_def_count(template) + 2 <= u64::MAX,
                0 <= a <= params@.len(),
                key == next_key + 1 + a,
                inputs_from_params(inputs@, params@.subrange(0, a as int), (next_key + 1) as u64),
            decreases params@.len() - a,
        {
            let name = params[a].0.name.clone();
            inputs.push(InputEntry { name, id: InputId { key }, typ: params[a].0.ty });
            key = key + 1;
            a = a + 1;
        }
        assert(params@.subrange(0, params@.len() as int) =~= params@);
        let ghost old_outputs = self.outputs@;
        if outs.len() == 1 {
            self.outputs.push(OutputEntry { id: OutputId { key }, node: node_id, typ: outs[0].ty });
            assert(self.outputs@.drop_last() =~= old_outputs);
            key = key + 1;
        }
        let ghost old_nodes = self.nodes@;
        let entry = NodeEntry { id: node_id, template, inputs };
        let ghost e = entry;
        self.nodes.push(entry);
        proof {
            assert(self.nodes@.drop_last() =~= old_nodes);
            assert(self.nodes@.last() == e);
            crate::graph::lemma_find_node_from(old_nodes, node_id, 0);
            lemma_find_node_push(old_nodes, e, node_id, 0);
            assert(find_node_from(old_nodes, node_id, 0) is None);
            let fin = *self;
            assert forall|i: int, b: int|
                0 <= i < fin.nodes@.len() && 0 <= b < fin.nodes@[i].inputs@.len() implies (#[trigger] fin.nodes@[i].inputs@[b]).id.key < key by {
                if i < old_nodes.len() {
                    assert(fin.nodes@[i] == old_nodes[i]);
                }
            }
            assert forall|i: int| 0 <= i < fin.nodes@.len() implies (#[trigger] fin.nodes@[i]).id.key < key by {
                if i < old_nodes.len() {
                    assert(fin.nodes@[i] == old_nodes[i]);
                }
            }
            assert forall|j: int| 0 <= j < fin.outputs@.len() implies (#[trigger] fin.outputs@[j]).id.key < key by {
                if j < old_outputs.len() {
                    assert(fin.outputs@[j] == old_outputs[j]);
                }
            }
            if well_formed(*old(self)) {
                lemma_add_node_well_formed(*old(self), fin, next_key);
            }
        }
        (node_id, key)
    }
}

proof fn lemma_add_node_well_formed(g: GraphModel, h: GraphModel, next_key: u64)
    requires
        well_formed(g),
        keys_below(g, next_key),
        h.nodes@.len() == g.nodes@.len() + 1,
        h.nodes@.drop_last() == g.nodes@,
        h.nodes@.last().id.key == next_key,
        forall|b: int| 0 <= b < h.nodes@.last().inputs@.len() ==> (#[trigger] h.nodes@.last().inputs@[b]).id.key == next_key + 1 + b,
        h.outputs@ == g.outputs@ || (h.outputs@.len() == g.outputs@.len() + 1 && h.outputs@.drop_last() == g.outputs@
            && h.outputs@.last().id.key >= next_key && h.outputs@.last().node == h.nodes@.last().id),
        h.connections@ == g.connections@,
    ensures
        well_formed(h),
{
    let n = g.nodes@.len() as int;
    assert forall|i: int| 0 <= i < n implies h.nodes@[i] == g.nodes@[i] by {
        assert(h.nodes@.drop_last()[i] == h.nodes@[i]);
    }
    assert forall|i: int, j: int| 0 <= i < j < h.nodes@.len() implies (#[trigger] h.nodes@[i]).id != (
    #[trigger] h.nodes@[j]).id by {
        if j == n {
            assert(g.nodes@[i].id.key < next_key);
        }
    }
    assert forall|i: int, a: int, j: int, b: int|
        0 <= i < h.nodes@.len() && 0 <= j < h.nodes@.len() && 0 <= a < h.nodes@[i].inputs@.len() && 0 <= b
            < h.nodes@[j].inputs@.len() && (i != j || a != b) implies (#[trigger] h.nodes@[i].inputs@[a]).id
            != (#[trigger] h.nodes@[j].inputs@[b]).id by {
        if i < n && j < n {
            assert(g.nodes@[i].inputs@[a] == h.nodes@[i].inputs@[a]);
            assert(g.nodes@[j].inputs@[b] == h.nodes@[j].inputs@[b]);
        } else if i < n {
            assert(g.nodes@[i].inputs@[a].id.key < next_key);
        } else if j < n {
            assert(g.nodes@[j].inputs@[b].id.key < next_key);
        }
    }
    assert forall|i: int, j: int| 0 <= i < j < h.outputs@.len() implies (#[trigger] h.outputs@[i]).id != (
    #[trigger] h.outputs@[j]).id by {
        if h.outputs@ != g.outputs@ {
            if j == g.outputs@.len() {
                assert(h.outputs@[i] == g.outputs@[i]);
                assert(g.outputs@[i].id.key < next_key);
            } else {
                assert(h.outputs@[i] == g.outputs@[i]);
                assert(h.outputs@[j] == g.outputs@[j]);
            }
        }
    }
    assert forall|k: int| 0 <= k < h.connections@.len() implies #[trigger] h.output_entry(
        h.connections@[k].1,
    ) is Some by {
        let o = g.connections@[k].1;
        assert(g.output_entry(o) is Some);
        if h.outputs@ != g.outputs@ {
            lemma_find_output_push(g.outputs@, h.outputs@.last(), o, 0);
            assert(g.outputs@.push(h.outputs@.last()) =~= h.outputs@);
        }
    }
    assert forall|j: int| 0 <= j < h.outputs@.len() implies exists|i: int|
        0 <= i < h.nodes@.len() && #[trigger] h.nodes@[i].id == (#[trigger] h.outputs@[j]).node by {
        if j < g.outputs@.len() {
            assert(h.outputs@[j] == g.outputs@[j]);
            let i = choose|i: int| 0 <= i < g.nodes@.len() && #[trigger] g.nodes@[i].id == (#[trigger] g.outputs@[j]).node;
            assert(h.nodes@[i].id == h.outputs@[j].node);
        } else {
            assert(h.nodes@[n].id == h.outputs@[j].node);
        }
    }
}

impl GraphModel {
    /// Connects `output` to `input`, in place of what fed `input` before; the
    /// other inputs keep their connections, and the nodes and outputs stay.
    pub fn add_connection(&mut self, output: OutputId, input: InputId)
        ensures
            final(self).nodes@ == old(self).nodes@,
            final(self).outputs@ == old(self).outputs@,
            final(self).connection_of(input) == Some(output),
            forall|j: InputId| j != input ==> #[trigger] final(self).connection_of(j) == old(self).connection_of(j),
            well_formed(*old(self)) && old(self).output_entry(output) is Some ==> well_formed(*final(self)),
    {
        let ghost c0 = self.connections@;
        let mut idx: usize = 0;
        while idx < self.connections.len() && self.connections[idx].0 != input
            invariant
                self.connections@ == c0,
                0 <= idx <= c0.len(),
                find_connection_from(c0, input, 0) == find_connection_from(c0, input, idx as int),
            decreases c0.len() - idx,
        {
            idx = idx + 1;
        }
        proof {
            crate::graph::lemma_find_connection_from(c0, input, 0);
        }
        if idx < self.connections.len() {
            self.connections.set(idx, (input, output));
            proof {
                assert(self.connections@ == c0.update(idx as int, (c0[idx as int].0, output)));
                assert forall|j: InputId| j != input implies #[trigger] self.connection_of(j) == old(self).connection_of(j) by {
                    lemma_find_connection_update(c0, idx as int, output, j, 0);
                    crate::graph::lemma_find_connection_from(c0, j, 0);
                    if let Some(f) = find_connection_from(c0, j, 0) {
                        assert(f != idx);
                        assert(self.connections@[f] == c0[f]);
                    }
                }
                lemma_find_connection_update(c0, idx as int, output, input, 0);
                assert(find_connection_from(c0, input, 0) == Some(idx as int));
            }
        } else {
            self.connections.push((input, output));
            proof {
                assert forall|j: InputId| j != input implies #[trigger] self.connection_of(j) == old(self).connection_of(j) by {
                    lemma_find_connection_push(c0, (input, output), j, 0);
                    crate::graph::lemma_find_connection_from(c0, j, 0);
                    if let Some(f) = find_connection_from(c0, j, 0) {
                        assert(self.connections@[f] == c0[f]);
                    }
                }
                lemma_find_connection_push(c0, (input, output), input, 0);
            }
        }
        proof {
            if well_formed(*old(self)) && old(self).output_entry(output) is Some {
                let h = *self;
                let g = *old(self);
                assert forall|i: int, j: int|
                    0 <= i < j < h.connections@.len() implies (#[trigger] h.connections@[i]).0 != (
                #[trigger] h.connections@[j]).0 by {
                    if j == c0.len() {
                        assert(h.connections@[i] == c0[i]);
                    } else if i != idx && j != idx {
                        assert(h.connections@[i] == c0[i] && h.connections@[j] == c0[j]);
                    } else if i == idx {
                        assert(h.connections@[j] == c0[j]);
                    } else {
                        assert(h.connections@[i] == c0[i]);
                    }
                }
                assert forall|k: int| 0 <= k < h.connections@.len() implies #[trigger] h.output_entry(
                    h.connections@[k].1,
                ) is Some by {
                    if k < c0.len() && k != idx {
                        assert(h.connections@[k] == c0[k]);
                        assert(g.output_entry(c0[k].1) is Some);
                    }
                }
            }
        }
    }

    /// Adds a node picked in the editor: the node of kind `template` (see
    /// `add_node`), then, where the picker was opened by dragging from an
    /// output, the connection from it to the first input of the new node of
    /// its type (see `connection_for_new_node`). Gives the node's id, the first
    /// key left free and the changes to report: the connection made, if any,
    /// then the node created.
    pub fn add_picked_node(
        &mut self,
        template: NodeType,
        next_key: u64,
        connection: Option<(NodeId, AnyParameterId)>,
    ) -> (r: (NodeId, u64, Vec<GraphChangeEvent>))
        requires
            keys_below(*old(self), next_key),
            next_key + input_def_count(template) + 2 <= u64::MAX,
            connection matches Some((_, AnyParameterId::Output(o))) ==> old(self).output_entry(o) is Some,
        ensures
            ({
                let made = connection_for_new_node(*final(self), r.0, connection);
                &&& r.2@ == add_node_changes(r.0, made)
                &&& made matches Some((o, i)) ==> final(self).connection_of(i) == Some(o)
                &&& forall|j: InputId|
                    (made matches Some((_, i)) ==> j != i) ==> #[trigger] final(self).connection_of(j)
                        == old(self).connection_of(j)
            }),
            node_added(*old(self), *final(self), template, next_key, r.0, r.1),
            keys_below(*final(self), r.1),
            well_formed(*old(self)) ==> well_formed(*final(self)),
    {
        let ghost g0 = *self;
        let (n, k) = self.add_node(template, next_key);
        let ghost g1 = *self;
        proof {
            if let Some((_, AnyParameterId::Output(o))) = connection {
                if !(g1.nodes@.last().template is SharedOut) {
                    let x = g1.outputs@.last();
                    assert(g1.outputs@ == g0.outputs@.push(x));
                    lemma_find_output_push(g0.outputs@, x, o, 0);
                    let idx = find_output_from(g0.outputs@, o, 0)->0;
                    crate::graph::lemma_find_output_from(g0.outputs@, o, 0);
                    assert(g0.outputs@.push(x)[idx] == g0.outputs@[idx]);
                }
                assert(g1.output_entry(o) == g0.output_entry(o));
            }
        }
        let (made, changes) = plan_add_node(self, n, connection);
        match made {
            Some((o, i)) => {
                self.add_connection(o, i);
            },
            None => {},
        }
        proof {
            let h = *self;
            assert(h.nodes@ == g1.nodes@);
            assert(h.outputs@ == g1.outputs@);
            assert(h.node_inputs(n) == g1.node_inputs(n));
            assert(forall|o: OutputId| #[trigger] h.output_entry(o) == g1.output_entry(o));
        }
        (n, k, changes)
    }
}

} // verus!
