//! Changes to the structure of a graph, as the parts that follow the graph see them.
use vstd::prelude::*;

use crate::graph::{GraphModel, InputId, NodeId, OutputId};

verus! {

/// A change to the structure of the graph.
#[derive(Clone, Copy, Debug, PartialEq, Eq, Structural)]
pub enum GraphChangeEvent {
    CreatedNode(NodeId),
    DestroyedNode(NodeId),
    Connected { output_id: OutputId, input_id: InputId },
    Disconnected { output_id: OutputId, input_id: InputId },
}

/// A parameter of a node: one of its inputs or one of its outputs.
#[derive(Clone, Copy, Debug, PartialEq, Eq, Structural)]
pub enum AnyParameterId {
    Input(InputId),
    Output(OutputId),
}

/// What the graph editor reports after a frame, as far as the graph's
/// structure is concerned.
#[derive(Clone, Copy, Debug, PartialEq, Eq, Structural)]
pub enum NodeResponse {
    ConnectEventStarted(NodeId, AnyParameterId),
    ConnectEventEnded { output: OutputId, input: InputId },
    CreatedNode(NodeId),
    DeleteNodeFull { node_id: NodeId },
    DisconnectEvent { output: OutputId, input: InputId },
    /// Any other response: selecting, moving or raising a node, and the like.
    Other,
}

/// The change to the graph's structure that a response reports, if any.
pub open spec fn change_of_response(r: NodeResponse) -> Option<GraphChangeEvent> {
    match r {
        NodeResponse::ConnectEventEnded { output, input } => Some(
            GraphChangeEvent::Connected { output_id: output, input_id: input },
        ),
        NodeResponse::CreatedNode(n) => Some(GraphChangeEvent::CreatedNode(n)),
        NodeResponse::DeleteNodeFull { node_id } => Some(GraphChangeEvent::DestroyedNode(node_id)),
        NodeResponse::DisconnectEvent { output, input } => Some(
            GraphChangeEvent::Disconnected { output_id: output, input_id: input },
        ),
        _ => None,
    }
}

/// The events that build a graph from nothing: a node created for each node,
/// in order, then a connection made for each connection, in order.
pub open spec fn events_from_graph(g: GraphModel) -> Seq<GraphChangeEvent> {
    g.nodes@.map_values(|n: crate::graph::NodeEntry| GraphChangeEvent::CreatedNode(n.id)) + g.connections@.map_values(
        |c: (InputId, OutputId)| GraphChangeEvent::Connected { output_id: c.1, input_id: c.0 },
    )
}

impl GraphChangeEvent {
    /// The change to the graph's structure that a response of the editor
    /// reports, if any.
    pub fn from_response(response: &NodeResponse) -> (r: Option<Self>)
        ensures
            r == change_of_response(*response),
    {
        match response {
            NodeResponse::ConnectEventEnded { output, input } => Some(
                GraphChangeEvent::Connected { output_id: *output, input_id: *input },
            ),
            NodeResponse::CreatedNode(node_id) => Some(GraphChangeEvent::CreatedNode(*node_id)),
            NodeResponse::DeleteNodeFull { node_id } => Some(GraphChangeEvent::DestroyedNode(*node_id)),
            NodeResponse::DisconnectEvent { output, input } => Some(
                GraphChangeEvent::Disconnected { output_id: *output, input_id: *input },
            ),
            _ => None,
        }
    }

    /// The events that build `graph` from nothing, to bring whatever follows
    /// the graph up to date with it.
    pub fn vec_from_graph(graph: &GraphModel) -> (r: Vec<Self>)
        ensures
            r@ == events_from_graph(*graph),
    {
        let mut r: Vec<GraphChangeEvent> = Vec::new();
        let mut i: usize = 0;
        while i < graph.nodes.len()
            invariant
                0 <= i <= graph.nodes@.len(),
                r@ == graph.nodes@.subrange(0, i as int).map_values(
                    |n: crate::graph::NodeEntry| GraphChangeEvent::CreatedNode(n.id),
                ),
            decreases graph.nodes@.len() - i,
        {
            r.push(GraphChangeEvent::CreatedNode(graph.nodes[i].id));
            assert(graph.nodes@.subrange(0, i + 1) =~= graph.nodes@.subrange(0, i as int).push(
                graph.nodes@[i as int],
            ));
            assert(r@ =~= graph.nodes@.subrange(0, i + 1).map_values(
                |n: crate::graph::NodeEntry| GraphChangeEvent::CreatedNode(n.id),
            ));
            i = i + 1;
        }
        assert(graph.nodes@.subrange(0, i as int) =~= graph.nodes@);
        let ghost created = r@;
        let mut j: usize = 0;
        while j < graph.connections.len()
            invariant
                0 <= j <= graph.connections@.len(),
                created == graph.nodes@.map_values(
                    |n: crate::graph::NodeEntry| GraphChangeEvent::CreatedNode(n.id),
                ),
                r@ == created + graph.connections@.subrange(0, j as int).map_values(
                    |c: (InputId, OutputId)| GraphChangeEvent::Connected { output_id: c.1, input_id: c.0 },
                ),
            decreases graph.connections@.len() - j,
        {
            let (input, output) = graph.connections[j];
            r.push(GraphChangeEvent::Connected { output_id: output, input_id: input });
            assert(graph.connections@.subrange(0, j + 1) =~= graph.connections@.subrange(
                0,
                j as int,
            ).push(graph.connections@[j as int]));
            assert(r@ =~= created + graph.connections@.subrange(0, j + 1).map_values(
                |c: (InputId, OutputId)| GraphChangeEvent::Connected { output_id: c.1, input_id: c.0 },
            ));
            j = j + 1;
        }
        assert(graph.connections@.subrange(0, j as int) =~= graph.connections@);
        r
    }
}

} // verus!
