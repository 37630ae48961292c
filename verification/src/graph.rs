//! The node graph as plain data, and the order in which its nodes are evaluated.
//!
//! Each input of a node may be connected to an output of another node. To
//! evaluate a node, the nodes feeding its inputs are evaluated first, each at
//! most once, depth first in the order of the inputs; the node itself comes last.
use vstd::prelude::*;

use crate::connections::ConnectionType;
use crate::node_types::NodeType;

verus! {

/// Identifies a node of the graph.
#[derive(Clone, Copy, Debug, PartialEq, Eq, Structural, Hash)]
pub struct NodeId {
    pub key: u64,
}

/// Identifies an input parameter of a node.
#[derive(Clone, Copy, Debug, PartialEq, Eq, Structural, Hash)]
pub struct InputId {
    pub key: u64,
}

/// Identifies an output parameter of a node.
#[derive(Clone, Copy, Debug, PartialEq, Eq, Structural, Hash)]
pub struct OutputId {
    pub key: u64,
}

/// An input parameter: its name on the node, its id and the type it accepts.
#[derive(Clone, Debug)]
pub struct InputEntry {
    pub name: String,
    pub id: InputId,
    pub typ: ConnectionType,
}

/// A node: its id, the kind of node it is, and its inputs in the order in
/// which the node lists them.
#[derive(Debug)]
pub struct NodeEntry {
    pub id: NodeId,
    pub template: NodeType,
    pub inputs: Vec<InputEntry>,
}

/// An output parameter and the node it belongs to.
#[derive(Clone, Copy, Debug)]
pub struct OutputEntry {
    pub id: OutputId,
    pub node: NodeId,
    pub typ: ConnectionType,
}

/// The structure of a node graph: its nodes, their outputs, and the connections,
/// each from an input to the output that feeds it.
#[derive(Debug)]
pub struct GraphModel {
    pub nodes: Vec<NodeEntry>,
    pub outputs: Vec<OutputEntry>,
    pub connections: Vec<(InputId, OutputId)>,
}

/// Index of the first node of `nodes` at or after `i` whose id is `n`.
pub open spec fn find_node_from(nodes: Seq<NodeEntry>, n: NodeId, i: int) -> Option<int>
    decreases nodes.len() - i,
{
    if i < 0 || i >= nodes.len() {
        None
    } else if nodes[i].id == n {
        Some(i)
    } else {
        find_node_from(nodes, n, i + 1)
    }
}

/// Index of the first output of `outputs` at or after `i` whose id is `o`.
pub open spec fn find_output_from(outputs: Seq<OutputEntry>, o: OutputId, i: int) -> Option<int>
    decreases outputs.len() - i,
{
    if i < 0 || i >= outputs.len() {
        None
    } else if outputs[i].id == o {
        Some(i)
    } else {
        find_output_from(outputs, o, i + 1)
    }
}

/// Index of the first connection at or after `i` that starts at input `input`.
pub open spec fn find_connection_from(
    connections: Seq<(InputId, OutputId)>,
    input: InputId,
    i: int,
) -> Option<int>
    decreases connections.len() - i,
{
    if i < 0 || i >= connections.len() {
        None
    } else if connections[i].0 == input {
        Some(i)
    } else {
        find_connection_from(connections, input, i + 1)
    }
}

/// What `find_node_from` finds is a node with that id, at or after `i`, and
/// no node before it from `i` on has that id.
pub proof fn lemma_find_node_from(nodes: Seq<NodeEntry>, n: NodeId, i: int)
    ensures
        find_node_from(nodes, n, i) matches Some(k) ==> 0 <= i <= k < nodes.len() && nodes[k].id == n
            && forall|j: int| i <= j < k ==> nodes[j].id != n,
        find_node_from(nodes, n, i) is None ==> forall|j: int|
            0 <= i <= j < nodes.len() ==> nodes[j].id != n,
    decreases nodes.len() - i,
{
    if 0 <= i < nodes.len() && nodes[i].id != n {
        lemma_find_node_from(nodes, n, i + 1);
    }
}

/// What `find_output_from` finds is an output with that id, at or after `i`.
pub proof fn lemma_find_output_from(outputs: Seq<OutputEntry>, o: OutputId, i: int)
    ensures
        find_output_from(outputs, o, i) matches Some(k) ==> 0 <= i <= k < outputs.len()
            && outputs[k].id == o,
        find_output_from(outputs, o, i) is None ==> forall|j: int|
            0 <= i <= j < outputs.len() ==> outputs[j].id != o,
    decreases outputs.len() - i,
{
    if 0 <= i < outputs.len() && outputs[i].id != o {
        lemma_find_output_from(outputs, o, i + 1);
    }
}

/// What `find_connection_from` finds is a connection from that input, at or after `i`.
pub proof fn lemma_find_connection_from(connections: Seq<(InputId, OutputId)>, input: InputId, i: int)
    ensures
        find_connection_from(connections, input, i) matches Some(k) ==> 0 <= i <= k
            < connections.len() && connections[k].0 == input,
        find_connection_from(connections, input, i) is None ==> forall|j: int|
            0 <= i <= j < connections.len() ==> connections[j].0 != input,
    decreases connections.len() - i,
{
    if 0 <= i < connections.len() && connections[i].0 != input {
        lemma_find_connection_from(connections, input, i + 1);
    }
}

impl GraphModel {
    /// The inputs of node `n`; none if the graph has no such node.
    pub open spec fn node_inputs(self, n: NodeId) -> Seq<InputEntry> {
        match find_node_from(self.nodes@, n, 0) {
            Some(i) => self.nodes@[i].inputs@,
            None => Seq::empty(),
        }
    }

    /// The kind of node `n` (that of the shared output where the graph has no such node).
    pub open spec fn node_template(self, n: NodeId) -> NodeType {
        match find_node_from(self.nodes@, n, 0) {
            Some(i) => self.nodes@[i].template,
            None => NodeType::SharedOut,
        }
    }

    /// Every connection ends at an output the graph has.
    pub open spec fn connections_fit(self) -> bool {
        forall|j: int|
            0 <= j < self.connections@.len() ==> #[trigger] self.output_entry(self.connections@[j].1) is Some
    }

    /// Whether the graph has a node with id `n`.
    pub open spec fn has_node(self, n: NodeId) -> bool {
        find_node_from(self.nodes@, n, 0) is Some
    }

    /// The output that feeds input `input`, if it is connected.
    pub open spec fn connection_of(self, input: InputId) -> Option<OutputId> {
        match find_connection_from(self.connections@, input, 0) {
            Some(i) => Some(self.connections@[i].1),
            None => None,
        }
    }

    /// The output entry with id `o`, if the graph has one.
    pub open spec fn output_entry(self, o: OutputId) -> Option<OutputEntry> {
        match find_output_from(self.outputs@, o, 0) {
            Some(i) => Some(self.outputs@[i]),
            None => None,
        }
    }

    /// The node that owns output `o`, if the graph has that output.
    pub open spec fn output_node(self, o: OutputId) -> Option<NodeId> {
        match self.output_entry(o) {
            Some(e) => Some(e.node),
            None => None,
        }
    }

    /// The node whose output feeds input `input`, if any.
    pub open spec fn source_of(self, input: InputId) -> Option<NodeId> {
        match self.connection_of(input) {
            Some(o) => self.output_node(o),
            None => None,
        }
    }

    /// Depth-first evaluation of node `n`: first the nodes feeding its inputs
    /// that are not in `done` yet, then `n`. `path` holds the nodes being
    /// evaluated around this one; meeting one of them again is a cycle, and gives
    /// `None`, as does running out of `fuel`.
    pub open spec fn visit(self, n: NodeId, fuel: nat, path: Seq<NodeId>, done: Seq<NodeId>) -> Option<
        Seq<NodeId>,
    >
        decreases fuel, 0nat,
    {
        if fuel == 0 || path.contains(n) {
            None
        } else {
            match self.visit_inputs(n, self.node_inputs(n), 0, (fuel - 1) as nat, path.push(n), done) {
                Some(d) => Some(d.push(n)),
                None => None,
            }
        }
    }

    /// Evaluates, in order, the sources of the inputs `ins[i..]` of node `n`
    /// that are not in `done` yet.
    pub open spec fn visit_inputs(
        self,
        n: NodeId,
        ins: Seq<InputEntry>,
        i: int,
        fuel: nat,
        path: Seq<NodeId>,
        done: Seq<NodeId>,
    ) -> Option<Seq<NodeId>>
        decreases fuel, (if i < 0 { 0 } else { ins.len() - i }) + 1,
    {
        if i < 0 || i >= ins.len() {
            Some(done)
        } else {
            match self.source_of(ins[i].id) {
                None => self.visit_inputs(n, ins, i + 1, fuel, path, done),
                Some(s) => if done.contains(s) {
                    self.visit_inputs(n, ins, i + 1, fuel, path, done)
                } else {
                    match self.visit(s, fuel, path, done) {
                        Some(d) => self.visit_inputs(n, ins, i + 1, fuel, path, d),
                        None => None,
                    }
                },
            }
        }
    }

    /// The order in which the nodes are evaluated to evaluate `root`: each node
    /// once, every node after the nodes that feed it, `root` last. `None` where
    /// the depth-first walk meets a node it is still inside of (a cycle), or
    /// goes deeper than the number of nodes.
    pub open spec fn evaluation_order_spec(self, root: NodeId) -> Option<Seq<NodeId>> {
        self.visit(root, (self.nodes@.len() + 1) as nat, Seq::empty(), Seq::empty())
    }
}


/// Whether `v` holds `x`.
pub fn contains_node(v: &Vec<NodeId>, x: NodeId) -> (b: bool)
    ensures
        b == v@.contains(x),
{
    let mut i: usize = 0;
    while i < v.len()
        invariant
            0 <= i <= v@.len(),
            forall|j: int| 0 <= j < i ==> v@[j] != x,
        decreases v@.len() - i,
    {
        if v[i] == x {
            assert(v@[i as int] == x);
            return true;
        }
        i = i + 1;
    }
    false
}

impl GraphModel {
    /// Index of the first node with id `n`.
    pub fn find_node(&self, n: NodeId) -> (r: Option<usize>)
        ensures
            r matches Some(i) ==> find_node_from(self.nodes@, n, 0) == Some(i as int),
            r is None ==> find_node_from(self.nodes@, n, 0) is None,
    {
        let mut i: usize = 0;
        while i < self.nodes.len()
            invariant
                0 <= i <= self.nodes@.len(),
                find_node_from(self.nodes@, n, 0) == find_node_from(self.nodes@, n, i as int),
            decreases self.nodes@.len() - i,
        {
            if self.nodes[i].id == n {
                return Some(i);
            }
            i = i + 1;
        }
        None
    }

    /// Index of the first output with id `o`.
    pub fn find_output(&self, o: OutputId) -> (r: Option<usize>)
        ensures
            r matches Some(i) ==> find_output_from(self.outputs@, o, 0) == Some(i as int),
            r is None ==> find_output_from(self.outputs@, o, 0) is None,
    {
        let mut i: usize = 0;
        while i < self.outputs.len()
            invariant
                0 <= i <= self.outputs@.len(),
                find_output_from(self.outputs@, o, 0) == find_output_from(self.outputs@, o, i as int),
            decreases self.outputs@.len() - i,
        {
            if self.outputs[i].id == o {
                return Some(i);
            }
            i = i + 1;
        }
        None
    }

    /// The output connected to input `input`, if any.
    pub fn connection(&self, input: InputId) -> (r: Option<OutputId>)
        ensures
            r == self.connection_of(input),
    {
        let mut i: usize = 0;
        while i < self.connections.len()
            invariant
                0 <= i <= self.connections@.len(),
                find_connection_from(self.connections@, input, 0) == find_connection_from(
                    self.connections@,
                    input,
                    i as int,
                ),
            decreases self.connections@.len() - i,
        {
            if self.connections[i].0 == input {
                return Some(self.connections[i].1);
            }
            i = i + 1;
        }
        None
    }

    /// The output entry with id `o`, if the graph has one.
    pub fn try_get_output(&self, o: OutputId) -> (r: Option<OutputEntry>)
        ensures
            r == self.output_entry(o),
    {
        proof {
            lemma_find_output_from(self.outputs@, o, 0);
        }
        match self.find_output(o) {
            Some(i) => Some(self.outputs[i]),
            None => None,
        }
    }

    /// The node whose output feeds input `input`, if any.
    pub fn source(&self, input: InputId) -> (r: Option<NodeId>)
        ensures
            r == self.source_of(input),
    {
        match self.connection(input) {
            Some(o) => match self.try_get_output(o) {
                Some(e) => Some(e.node),
                None => None,
            },
            None => None,
        }
    }

    fn visit_exec(&self, n: NodeId, fuel: usize, path: &mut Vec<NodeId>, done: &mut Vec<NodeId>) -> (ok: bool)
        ensures
            ok == self.visit(n, fuel as nat, old(path)@, old(done)@) is Some,
            ok ==> final(done)@ == self.visit(n, fuel as nat, old(path)@, old(done)@)->0,
            final(path)@ == old(path)@,
        decreases fuel, 0nat,
    {
        if fuel == 0 || contains_node(path, n) {
            return false;
        }
        let ghost path0 = path@;
        path.push(n);
        proof {
            lemma_find_node_from(self.nodes@, n, 0);
        }
        let ok = match self.find_node(n) {
            Some(idx) => self.visit_inputs_exec(n, &self.nodes[idx].inputs, fuel - 1, path, done),
            None => {
                let empty: Vec<InputEntry> = Vec::new();
                self.visit_inputs_exec(n, &empty, fuel - 1, path, done)
            },
        };
        path.pop();
        assert(path@ =~= path0);
        if ok {
            done.push(n);
        }
        ok
    }

    fn visit_inputs_exec(
        &self,
        n: NodeId,
        ins: &Vec<InputEntry>,
        fuel: usize,
        path: &mut Vec<NodeId>,
        done: &mut Vec<NodeId>,
    ) -> (ok: bool)
        ensures
            ok == self.visit_inputs(n, ins@, 0, fuel as nat, old(path)@, old(done)@) is Some,
            ok ==> final(done)@ == self.visit_inputs(n, ins@, 0, fuel as nat, old(path)@, old(done)@)->0,
            final(path)@ == old(path)@,
        decreases fuel, 1nat,
    {
        let ghost whole = self.visit_inputs(n, ins@, 0, fuel as nat, old(path)@, old(done)@);
        let mut i: usize = 0;
        while i < ins.len()
            invariant
                0 <= i <= ins@.len(),
                path@ == old(path)@,
                whole == self.visit_inputs(n, ins@, 0, fuel as nat, old(path)@, old(done)@),
                whole == self.visit_inputs(n, ins@, i as int, fuel as nat, path@, done@),
            decreases ins@.len() - i,
        {
            match self.source(ins[i].id) {
                None => {},
                Some(s) => {
                    if !contains_node(done, s) {
                        let ok = self.visit_exec(s, fuel, path, done);
                        if !ok {
                            return false;
                        }
                    }
                },
            }
            i = i + 1;
        }
        true
    }

    /// The nodes to evaluate, in order, to evaluate `root`: every node that
    /// feeds `root`, directly or not, once, after the nodes that feed it, and
    /// `root` last. `None` where the walk meets a cycle (see
    /// `evaluation_order_spec`); it is there wherever the part of the graph
    /// feeding `root` has no cycle (`law_evaluation_order_exists`).
    pub fn evaluation_order(&self, root: NodeId) -> (r: Option<Vec<NodeId>>)
        requires
            self.nodes@.len() < usize::MAX,
        ensures
            match r {
                Some(v) => self.evaluation_order_spec(root) == Some(v@),
                None => self.evaluation_order_spec(root) is None,
            },
    {
        let mut path: Vec<NodeId> = Vec::new();
        let mut done: Vec<NodeId> = Vec::new();
        assert(path@ =~= Seq::<NodeId>::empty());
        assert(done@ =~= Seq::<NodeId>::empty());
        if self.visit_exec(root, self.nodes.len() + 1, &mut path, &mut done) {
            Some(done)
        } else {
            None
        }
    }
}

/// The position of the first result for node `n` among `results[i..]`.
pub open spec fn first_result_of<R>(results: Seq<(NodeId, R)>, n: NodeId, i: int) -> Option<int>
    decreases results.len() - i,
{
    if i < 0 || i >= results.len() {
        None
    } else if results[i].0 == n {
        Some(i)
    } else {
        first_result_of(results, n, i + 1)
    }
}

/// Where the value of input `input` comes from: the first result recorded for
/// the node feeding it, if it is fed and that node has a result.
pub open spec fn input_result<R>(g: GraphModel, results: Seq<(NodeId, R)>, input: InputId) -> Option<int> {
    match g.source_of(input) {
        Some(s) => first_result_of(results, s, 0),
        None => None,
    }
}

fn find_result<R>(results: &Vec<(NodeId, R)>, n: NodeId) -> (r: Option<usize>)
    ensures
        match r {
            Some(i) => first_result_of(results@, n, 0) == Some(i as int),
            None => first_result_of(results@, n, 0) is None,
        },
{
    let mut i: usize = 0;
    while i < results.len()
        invariant
            0 <= i <= results@.len(),
            first_result_of(results@, n, 0) == first_result_of(results@, n, i as int),
        decreases results@.len() - i,
    {
        if results[i].0 == n {
            return Some(i);
        }
        i = i + 1;
    }
    None
}

impl GraphModel {
    /// The inputs of `node`, in order, each with the position in `results` of
    /// the result of the node feeding it (the first one recorded for that
    /// node); `None` for an input fed by nothing, or by a node with no result.
    /// `results` holds what the nodes evaluated so far gave.
    pub fn compute_inputs<R>(&self, node: NodeId, results: &Vec<(NodeId, R)>) -> (r: Vec<(InputId, Option<usize>)>)
        ensures
            r@.len() == self.node_inputs(node).len(),
            forall|i: int|
                0 <= i < r@.len() ==> (#[trigger] r@[i]).0 == self.node_inputs(node)[i].id && match r@[i].1 {
                    Some(k) => input_result(*self, results@, r@[i].0) == Some(k as int),
                    None => input_result(*self, results@, r@[i].0) is None,
                },
    {
        proof {
            lemma_find_node_from(self.nodes@, node, 0);
        }
        let mut r: Vec<(InputId, Option<usize>)> = Vec::new();
        match self.find_node(node) {
            Some(idx) => {
                let ins = &self.nodes[idx].inputs;
                let mut i: usize = 0;
                while i < ins.len()
                    invariant
                        ins@ == self.node_inputs(node),
                        0 <= i <= ins@.len(),
                        r@.len() == i,
                        forall|k: int|
                            0 <= k < i ==> (#[trigger] r@[k]).0 == ins@[k].id && match r@[k].1 {
                                Some(x) => input_result(*self, results@, r@[k].0) == Some(x as int),
                                None => input_result(*self, results@, r@[k].0) is None,
                            },
                    decreases ins@.len() - i,
                {
                    let id = ins[i].id;
                    let found = match self.source(id) {
                        Some(s) => find_result(results, s),
                        None => None,
                    };
                    r.push((id, found));
                    i = i + 1;
                }
            },
            None => {},
        }
        r
    }
}

} // verus!
