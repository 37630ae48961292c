//! The decisions of the graph editor: which view shows, what the keys do, how
//! dragging a connection into empty space opens the node picker, how a picked
//! node is connected, and which node kinds the picker's filter lets through.
use vstd::prelude::*;

use crate::connections::ConnectionType;
use crate::events::{change_of_response, AnyParameterId, GraphChangeEvent, NodeResponse};
use crate::graph::{GraphModel, InputEntry, InputId, NodeId, OutputId};
use crate::node_types::{node_type_name, takes_texture, NodeType};
use crate::strings::{contains_seq, lowercase, str_contains, to_lowercase};

verus! {

/// What the editor's window shows: the graph, or the rendered output.
#[derive(Clone, Copy, Debug, PartialEq, Eq, Structural)]
pub enum ViewState {
    Graph,
    Output,
}

/// The other view.
pub open spec fn toggled(v: ViewState) -> ViewState {
    match v {
        ViewState::Graph => ViewState::Output,
        ViewState::Output => ViewState::Graph,
    }
}

/// Law of the view: switching twice shows the view shown before.
pub proof fn law_toggle_twice(v: ViewState)
    ensures
        toggled(toggled(v)) == v,
{
}

impl ViewState {
    /// The view shown first: the graph.
    pub fn default() -> (r: Self)
        ensures
            r == ViewState::Graph,
    {
        ViewState::Graph
    }

    /// Switches between the graph and the output.
    pub fn toggle(&mut self)
        ensures
            *final(self) == toggled(*old(self)),
    {
        *self = match self {
            ViewState::Graph => ViewState::Output,
            ViewState::Output => ViewState::Graph,
        }
    }
}

/// Identifies an entry of the node picker's tree.
#[derive(Clone, Copy, Debug, PartialEq, Eq, Structural, Hash)]
pub struct LeafIndex {
    pub key: u64,
}

/// Identifies a folder of the node picker's tree.
#[derive(Clone, Copy, Debug, PartialEq, Eq, Structural, Hash)]
pub struct BranchIndex {
    pub key: u64,
}

/// Something to render outside the graph: the preview of a picker entry.
#[derive(Clone, Copy, Debug, PartialEq, Eq, Structural)]
pub enum RenderRequest {
    Leaf(LeafIndex),
}

/// What drawing the picker's tree reports: the entry clicked, if any, and the
/// entries in view.
#[derive(Clone, Debug)]
pub struct TreeDrawResult {
    pub clicked: Option<LeafIndex>,
    pub in_view: Vec<LeafIndex>,
}

/// A folder of the picker's tree.
#[derive(Clone, Debug)]
pub struct BranchItem {
    pub name: String,
}

/// Whether the picker's folders are forced open this frame: after the search
/// changed to a non-empty text they all open; otherwise each keeps its state.
pub fn tree_open_state(search_changed: bool, text: &String) -> (r: Option<bool>)
    ensures
        r == if search_changed && text@.len() > 0 {
            Some(true)
        } else {
            None
        },
{
    if !search_changed {
        None
    } else if text.as_str().is_empty() {
        None
    } else {
        Some(true)
    }
}

/// What a frame of the editor produced: changes to the graph and renders asked for.
#[derive(Clone, Debug)]
pub struct GraphUiResult {
    pub graph_changes: Vec<GraphChangeEvent>,
    pub render_requests: Vec<RenderRequest>,
}

fn append_events(a: &mut Vec<GraphChangeEvent>, b: &Vec<GraphChangeEvent>)
    ensures
        final(a)@ == old(a)@ + b@,
{
    let mut i: usize = 0;
    while i < b.len()
        invariant
            0 <= i <= b@.len(),
            a@ == old(a)@ + b@.subrange(0, i as int),
        decreases b@.len() - i,
    {
        a.push(b[i]);
        assert(b@.subrange(0, i + 1) =~= b@.subrange(0, i as int).push(b@[i as int]));
        i = i + 1;
    }
    assert(b@.subrange(0, i as int) =~= b@);
}

fn append_requests(a: &mut Vec<RenderRequest>, b: &Vec<RenderRequest>)
    ensures
        final(a)@ == old(a)@ + b@,
{
    let mut i: usize = 0;
    while i < b.len()
        invariant
            0 <= i <= b@.len(),
            a@ == old(a)@ + b@.subrange(0, i as int),
        decreases b@.len() - i,
    {
        a.push(b[i]);
        assert(b@.subrange(0, i + 1) =~= b@.subrange(0, i as int).push(b@[i as int]));
        i = i + 1;
    }
    assert(b@.subrange(0, i as int) =~= b@);
}

impl GraphUiResult {
    /// Nothing changed, nothing to render.
    pub fn default() -> (r: Self)
        ensures
            r.graph_changes@.len() == 0,
            r.render_requests@.len() == 0,
    {
        GraphUiResult { graph_changes: Vec::new(), render_requests: Vec::new() }
    }

    /// Both results: the changes and requests of `self`, then those of `other`.
    pub fn union(self, other: Self) -> (r: Self)
        ensures
            r.graph_changes@ == self.graph_changes@ + other.graph_changes@,
            r.render_requests@ == self.render_requests@ + other.render_requests@,
    {
        let mut graph_changes = self.graph_changes;
        append_events(&mut graph_changes, &other.graph_changes);
        let mut render_requests = self.render_requests;
        append_requests(&mut render_requests, &other.render_requests);
        GraphUiResult { graph_changes, render_requests }
    }
}

/// What a key pressed asks of the editor.
#[derive(Clone, Copy, Debug, PartialEq, Eq, Structural)]
pub enum GraphUiAction {
    Home,
    ToggleAddNodeModal,
    Escape,
    ToggleViewState,
}

impl GraphUiAction {
    /// The action of the keys pressed this frame: H goes home, Tab opens or
    /// closes the node picker, Escape cancels, F1 switches the view; the first
    /// of these in that order wins.
    pub fn from_keys(h: bool, tab: bool, escape: bool, f1: bool) -> (r: Option<Self>)
        ensures
            r == if h {
                Some(GraphUiAction::Home)
            } else if tab {
                Some(GraphUiAction::ToggleAddNodeModal)
            } else if escape {
                Some(GraphUiAction::Escape)
            } else if f1 {
                Some(GraphUiAction::ToggleViewState)
            } else {
                None
            },
    {
        if h {
            Some(GraphUiAction::Home)
        } else if tab {
            Some(GraphUiAction::ToggleAddNodeModal)
        } else if escape {
            Some(GraphUiAction::Escape)
        } else if f1 {
            Some(GraphUiAction::ToggleViewState)
        } else {
            None
        }
    }
}

/// What opened the node picker, and where: the mouse, or a connection dragged
/// from a node's parameter into empty space. `P` is a position on the graph.
#[derive(Clone, Copy, Debug)]
pub enum NodeSelectionActor<P> {
    Mouse(P),
    DraggingOutput(P, NodeId, AnyParameterId),
}

impl<P: Copy> NodeSelectionActor<P> {
    /// Where the picker was opened.
    pub fn pos(&self) -> (r: P)
        ensures
            match *self {
                NodeSelectionActor::Mouse(p) => r == p,
                NodeSelectionActor::DraggingOutput(p, _, _) => r == p,
            },
    {
        match self {
            NodeSelectionActor::Mouse(pos) => *pos,
            NodeSelectionActor::DraggingOutput(pos, _, _) => *pos,
        }
    }

    /// The parameter a connection was dragged from, if one was.
    pub fn connection(&self) -> (r: Option<(NodeId, AnyParameterId)>)
        ensures
            match *self {
                NodeSelectionActor::Mouse(_) => r is None,
                NodeSelectionActor::DraggingOutput(_, n, p) => r == Some((n, p)),
            },
    {
        match self {
            NodeSelectionActor::Mouse(_) => None,
            NodeSelectionActor::DraggingOutput(_, node_id, param_id) => Some((*node_id, *param_id)),
        }
    }
}

/// The first response that starts a connection, if any.
pub open spec fn first_connect_started(responses: Seq<NodeResponse>, i: int) -> Option<(NodeId, AnyParameterId)>
    decreases responses.len() - i,
{
    if i < 0 || i >= responses.len() {
        None
    } else {
        match responses[i] {
            NodeResponse::ConnectEventStarted(n, p) => Some((n, p)),
            _ => first_connect_started(responses, i + 1),
        }
    }
}

/// Whether a connection ended or was undone among the responses.
pub open spec fn connection_finished(responses: Seq<NodeResponse>) -> bool {
    exists|i: int|
        0 <= i < responses.len() && (#[trigger] responses[i] is ConnectEventEnded || responses[i] is DisconnectEvent)
}

/// The state of the editor kept between frames and runs.
#[derive(Clone, Copy, Debug)]
pub struct GraphUiState<P> {
    pub view_state: ViewState,
    pub node_selection_actor: Option<NodeSelectionActor<P>>,
    pub last_connection_in_progress: Option<(NodeId, AnyParameterId)>,
}

impl<P: Copy> GraphUiState<P> {
    /// The graph in view, no picker open, no connection dragged.
    pub fn default() -> (r: Self)
        ensures
            r.view_state == ViewState::Graph,
            r.node_selection_actor is None,
            r.last_connection_in_progress is None,
    {
        GraphUiState { view_state: ViewState::Graph, node_selection_actor: None, last_connection_in_progress: None }
    }

    /// Opens the node picker at `pos` where it is closed, and closes it where it is open.
    pub fn toggle_add_node_modal(&mut self, pos: P)
        ensures
            old(self).node_selection_actor is None ==> final(self).node_selection_actor == Some(
                NodeSelectionActor::Mouse(pos),
            ),
            old(self).node_selection_actor is Some ==> final(self).node_selection_actor is None,
            final(self).view_state == old(self).view_state,
            final(self).last_connection_in_progress == old(self).last_connection_in_progress,
    {
        self.node_selection_actor = if self.node_selection_actor.is_none() {
            Some(NodeSelectionActor::Mouse(pos))
        } else {
            None
        };
    }

    /// Follows a connection being dragged: a connection that ends or is undone
    /// is forgotten; one that starts is remembered; a remembered one that is no
    /// longer dragged (`dragging` false) was dropped in empty space, and opens
    /// the node picker at `pos` to add a node that takes it.
    pub fn track_connection(&mut self, responses: &Vec<NodeResponse>, dragging: bool, pos: P)
        ensures
            final(self).view_state == old(self).view_state,
            ({
                let last = if connection_finished(responses@) {
                    None
                } else {
                    old(self).last_connection_in_progress
                };
                match first_connect_started(responses@, 0) {
                    Some(c) => final(self).last_connection_in_progress == Some(c)
                        && final(self).node_selection_actor == old(self).node_selection_actor,
                    None => match last {
                        Some(c) => if !dragging {
                            final(self).node_selection_actor == Some(
                                NodeSelectionActor::DraggingOutput(pos, c.0, c.1),
                            ) && final(self).last_connection_in_progress is None
                        } else {
                            final(self).node_selection_actor == old(self).node_selection_actor
                                && final(self).last_connection_in_progress == Some(c)
                        },
                        None => final(self).node_selection_actor == old(self).node_selection_actor
                            && final(self).last_connection_in_progress is None,
                    },
                }
            }),
    {
        let mut finished = false;
        let mut i: usize = 0;
        while i < responses.len()
            invariant
                0 <= i <= responses@.len(),
                finished == exists|k: int|
                    0 <= k < i && (#[trigger] responses@[k] is ConnectEventEnded
                        || responses@[k] is DisconnectEvent),
            decreases responses@.len() - i,
        {
            match responses[i] {
                NodeResponse::ConnectEventEnded { .. } | NodeResponse::DisconnectEvent { .. } => {
                    finished = true;
                },
                _ => {},
            }
            i = i + 1;
        }
        if finished {
            self.last_connection_in_progress = None;
        }
        let mut started: Option<(NodeId, AnyParameterId)> = None;
        let mut j: usize = 0;
        while j < responses.len() && started.is_none()
            invariant
                0 <= j <= responses@.len(),
                started is None ==> first_connect_started(responses@, 0) == first_connect_started(responses@, j as int),
                started is Some ==> first_connect_started(responses@, 0) == started,
            decreases responses@.len() - j,
        {
            if let NodeResponse::ConnectEventStarted(node_id, param_id) = responses[j] {
                started = Some((node_id, param_id));
            }
            j = j + 1;
        }
        match started {
            Some(c) => {
                self.last_connection_in_progress = Some(c);
            },
            None => {
                if let Some(last) = self.last_connection_in_progress {
                    if !dragging {
                        self.node_selection_actor = Some(NodeSelectionActor::DraggingOutput(pos, last.0, last.1));
                        self.last_connection_in_progress = None;
                    }
                }
            },
        }
    }

    /// Closes the node picker once a node was picked, or when its window was
    /// closed or Escape pressed.
    pub fn close_selector(&mut self, node_added: bool, window_open: bool, action: Option<GraphUiAction>)
        ensures
            (node_added || !window_open || action == Some(GraphUiAction::Escape))
                ==> final(self).node_selection_actor is None,
            !(node_added || !window_open || action == Some(GraphUiAction::Escape))
                ==> final(self).node_selection_actor == old(self).node_selection_actor,
            final(self).view_state == old(self).view_state,
            final(self).last_connection_in_progress == old(self).last_connection_in_progress,
    {
        if node_added {
            self.node_selection_actor = None;
        }
        if !window_open || action == Some(GraphUiAction::Escape) {
            self.node_selection_actor = None;
        }
    }

    /// The parameter whose node's render is previewed in the picker: that of
    /// the connection the picker was opened from, if any.
    pub fn preview_connection(&self) -> (r: Option<(NodeId, AnyParameterId)>)
        ensures
            match self.node_selection_actor {
                Some(NodeSelectionActor::DraggingOutput(_, n, p)) => r == Some((n, p)),
                _ => r is None,
            },
    {
        match &self.node_selection_actor {
            Some(NodeSelectionActor::DraggingOutput(_, node_id, param_id)) => Some((*node_id, *param_id)),
            _ => None,
        }
    }
}

/// The changes to the graph that a frame's responses report, in order.
pub open spec fn changes_of_responses(responses: Seq<NodeResponse>) -> Seq<GraphChangeEvent>
    decreases responses.len(),
{
    if responses.len() == 0 {
        Seq::empty()
    } else {
        changes_of_responses(responses.drop_last()) + match change_of_response(responses.last()) {
            Some(e) => seq![e],
            None => Seq::empty(),
        }
    }
}

/// The changes to the graph that a frame's responses report, in order.
pub fn changes_from_responses(responses: &Vec<NodeResponse>) -> (r: Vec<GraphChangeEvent>)
    ensures
        r@ == changes_of_responses(responses@),
{
    let mut r: Vec<GraphChangeEvent> = Vec::new();
    let mut i: usize = 0;
    while i < responses.len()
        invariant
            0 <= i <= responses@.len(),
            r@ == changes_of_responses(responses@.subrange(0, i as int)),
        decreases responses@.len() - i,
    {
        assert(responses@.subrange(0, i + 1).drop_last() =~= responses@.subrange(0, i as int));
        match GraphChangeEvent::from_response(&responses[i]) {
            Some(e) => r.push(e),
            None => {},
        }
        assert(r@ =~= changes_of_responses(responses@.subrange(0, i + 1)));
        i = i + 1;
    }
    assert(responses@.subrange(0, i as int) =~= responses@);
    r
}

/// The picker entries whose previews are asked for, in order.
pub fn leaf_requests(requests: &Vec<RenderRequest>) -> (r: Vec<LeafIndex>)
    ensures
        r@ == requests@.map_values(|q: RenderRequest| match q { RenderRequest::Leaf(l) => l }),
{
    let mut r: Vec<LeafIndex> = Vec::new();
    let mut i: usize = 0;
    while i < requests.len()
        invariant
            0 <= i <= requests@.len(),
            r@ == requests@.subrange(0, i as int).map_values(|q: RenderRequest| match q { RenderRequest::Leaf(l) => l }),
        decreases requests@.len() - i,
    {
        match requests[i] {
            RenderRequest::Leaf(l) => r.push(l),
        }
        assert(requests@.subrange(0, i + 1) =~= requests@.subrange(0, i as int).push(requests@[i as int]));
        assert(r@ =~= requests@.subrange(0, i + 1).map_values(|q: RenderRequest| match q { RenderRequest::Leaf(l) => l }));
        i = i + 1;
    }
    assert(requests@.subrange(0, i as int) =~= requests@);
    r
}

/// The id of the first input among `ins[i..]` of type `typ`.
pub open spec fn first_input_of_type(ins: Seq<InputEntry>, typ: ConnectionType, i: int) -> Option<InputId>
    decreases ins.len() - i,
{
    if i < 0 || i >= ins.len() {
        None
    } else if ins[i].typ == typ {
        Some(ins[i].id)
    } else {
        first_input_of_type(ins, typ, i + 1)
    }
}

/// The connection made for a node just added from the picker: where the picker
/// was opened by dragging from an output, that output to the first input of the
/// new node of the output's type, if there is one.
pub open spec fn connection_for_new_node(
    g: GraphModel,
    new_node: NodeId,
    connection: Option<(NodeId, AnyParameterId)>,
) -> Option<(OutputId, InputId)> {
    match connection {
        Some((_, AnyParameterId::Output(output_id))) => match g.output_entry(output_id) {
            Some(out) => match first_input_of_type(g.node_inputs(new_node), out.typ, 0) {
                Some(input_id) => Some((output_id, input_id)),
                None => None,
            },
            None => None,
        },
        _ => None,
    }
}

/// What adding a node reports: the connection made, if any, then the node created.
pub open spec fn add_node_changes(new_node: NodeId, made: Option<(OutputId, InputId)>) -> Seq<GraphChangeEvent> {
    match made {
        Some((o, i)) => seq![
            GraphChangeEvent::Connected { output_id: o, input_id: i },
            GraphChangeEvent::CreatedNode(new_node),
        ],
        None => seq![GraphChangeEvent::CreatedNode(new_node)],
    }
}

/// For a node just added to `graph` from the picker, the connection to make
/// (see `connection_for_new_node`) and the changes to report.
pub fn plan_add_node(graph: &GraphModel, new_node: NodeId, connection: Option<(NodeId, AnyParameterId)>) -> (r: (
    Option<(OutputId, InputId)>,
    Vec<GraphChangeEvent>,
))
    requires
        connection matches Some((_, AnyParameterId::Output(o))) ==> graph.output_entry(o) is Some,
    ensures
        r.0 == connection_for_new_node(*graph, new_node, connection),
        r.1@ == add_node_changes(new_node, r.0),
{
    let mut made: Option<(OutputId, InputId)> = None;
    if let Some((_, AnyParameterId::Output(output_id))) = connection {
        let param = graph.try_get_output(output_id).unwrap();
        proof {
            crate::graph::lemma_find_node_from(graph.nodes@, new_node, 0);
        }
        let matched = match graph.find_node(new_node) {
            Some(idx) => {
                let ins = &graph.nodes[idx].inputs;
                let mut found: Option<InputId> = None;
                let mut i: usize = 0;
                while i < ins.len() && found.is_none()
                    invariant
                        0 <= i <= ins@.len(),
                        found is None ==> first_input_of_type(ins@, param.typ, 0) == first_input_of_type(ins@, param.typ, i as int),
                        found is Some ==> first_input_of_type(ins@, param.typ, 0) == found,
                    decreases ins@.len() - i,
                {
                    if ins[i].typ == param.typ {
                        found = Some(ins[i].id);
                    }
                    i = i + 1;
                }
                found
            },
            None => None,
        };
        if let Some(input_id) = matched {
            made = Some((output_id, input_id));
        }
    }
    let mut changes: Vec<GraphChangeEvent> = Vec::new();
    if let Some((o, i)) = made {
        changes.push(GraphChangeEvent::Connected { output_id: o, input_id: i });
    }
    changes.push(GraphChangeEvent::CreatedNode(new_node));
    proof {
        match made {
            Some((o, i)) => {
                assert(changes@ =~= add_node_changes(new_node, made));
            },
            None => {
                assert(changes@ =~= add_node_changes(new_node, made));
            },
        }
    }
    (made, changes)
}

/// The filter of the node picker: a search text, and whether to keep only the
/// kinds with a texture input, or only those without.
#[derive(Debug)]
pub struct FilterState {
    pub image_inputs: bool,
    pub no_image_inputs: bool,
    pub text: String,
}

/// Whether the filter lets a kind of node through: its name contains the
/// search text (case aside) or the text is empty, and it has a texture input
/// if those are asked for, and none if those are.
pub open spec fn filter_passes(image_inputs: bool, no_image_inputs: bool, text: Seq<char>, t: NodeType) -> bool {
    let text_pass = text.len() == 0 || contains_seq(lowercase(node_type_name(t)), lowercase(text));
    let has_inputs = takes_texture(t);
    text_pass && (!image_inputs || has_inputs) && (!no_image_inputs || !has_inputs)
}

/// Law of the node picker: the filter it starts with lets every kind of node through.
pub proof fn law_default_filter_passes_all(t: NodeType)
    ensures
        filter_passes(false, false, Seq::empty(), t),
{
}

impl FilterState {
    /// An empty search that lets everything through.
    pub fn default() -> (r: Self)
        ensures
            !r.image_inputs,
            !r.no_image_inputs,
            r.text@.len() == 0,
    {
        FilterState { image_inputs: false, no_image_inputs: false, text: String::new() }
    }

    /// Whether the filter lets a kind of node through (see `filter_passes`).
    pub fn filter_item(&self, item: &NodeType) -> (b: bool)
        ensures
            b == filter_passes(self.image_inputs, self.no_image_inputs, self.text@, *item),
    {
        let text_pass = self.text.as_str().is_empty() || {
            let name = to_lowercase(item.get_name());
            let text = to_lowercase(self.text.as_str());
            str_contains(name.as_str(), text.as_str())
        };
        let has_inputs = item.has_texture_input();
        text_pass && (!self.image_inputs || has_inputs) && (!self.no_image_inputs || !has_inputs)
    }
}

} // verus!
