//! The bookkeeping of the graph processor: which nodes end a chain of nodes
//! (their output feeds nothing, so they are rendered), and which nodes have an
//! updater that reloads their shader when its source changes.
use vstd::prelude::*;

use crate::common::{instant_now, ExInstant};
use crate::connections::ConnectionType;
use crate::events::{events_from_graph, GraphChangeEvent};
use crate::gl_expression::GlExpressionUpdater;
use crate::graph::{contains_node, GraphModel, InputEntry, NodeId};
use crate::isf::{now_nanos, IsfUpdater};
use crate::node_types::NodeType;

verus! {

/// `s` without `x`, the rest in order.
pub open spec fn remove_node(s: Seq<NodeId>, x: NodeId) -> Seq<NodeId>
    decreases s.len(),
{
    if s.len() == 0 {
        s
    } else {
        let r = remove_node(s.drop_last(), x);
        if s.last() == x {
            r
        } else {
            r.push(s.last())
        }
    }
}

/// `s` with `x` at the end, unless it already holds `x`.
pub open spec fn insert_node(s: Seq<NodeId>, x: NodeId) -> Seq<NodeId> {
    if s.contains(x) {
        s
    } else {
        s.push(x)
    }
}

/// `s` without each of `xs`.
pub open spec fn remove_nodes(s: Seq<NodeId>, xs: Seq<NodeId>) -> Seq<NodeId>
    decreases xs.len(),
{
    if xs.len() == 0 {
        s
    } else {
        remove_node(remove_nodes(s, xs.drop_last()), xs.last())
    }
}

/// The nodes that feed the texture inputs among `ins`, in order.
pub open spec fn texture_sources(g: GraphModel, ins: Seq<InputEntry>) -> Seq<NodeId>
    decreases ins.len(),
{
    if ins.len() == 0 {
        Seq::empty()
    } else {
        texture_sources(g, ins.drop_last()) + if ins.last().typ == ConnectionType::Texture2D
            && g.source_of(ins.last().id) is Some {
            seq![g.source_of(ins.last().id)->0]
        } else {
            Seq::empty()
        }
    }
}

/// The nodes that end a chain after `event`, from `s` before it: a new node ends
/// one, and the nodes feeding its textures no longer do; a node whose output is
/// disconnected ends one again; a node whose output is connected, or that is
/// destroyed, no longer does.
pub open spec fn terminating_after(g: GraphModel, s: Seq<NodeId>, event: GraphChangeEvent) -> Seq<NodeId> {
    match event {
        GraphChangeEvent::CreatedNode(n) => insert_node(
            remove_nodes(s, texture_sources(g, g.node_inputs(n))),
            n,
        ),
        GraphChangeEvent::Disconnected { output_id, .. } => match g.output_node(output_id) {
            Some(x) => insert_node(s, x),
            None => s,
        },
        GraphChangeEvent::Connected { output_id, .. } => match g.output_node(output_id) {
            Some(x) => remove_node(s, x),
            None => s,
        },
        GraphChangeEvent::DestroyedNode(n) => remove_node(s, n),
    }
}

/// The nodes that end a chain after each of `events` in turn.
pub open spec fn terminating_after_all(g: GraphModel, s: Seq<NodeId>, events: Seq<GraphChangeEvent>) -> Seq<
    NodeId,
>
    decreases events.len(),
{
    if events.len() == 0 {
        s
    } else {
        terminating_after(g, terminating_after_all(g, s, events.drop_last()), events.last())
    }
}

/// Whether the graph's nodes can take `event`: a node created is in the graph,
/// and an output connected is too.
pub open spec fn event_fits(g: GraphModel, event: GraphChangeEvent) -> bool {
    match event {
        GraphChangeEvent::CreatedNode(n) => g.has_node(n),
        GraphChangeEvent::Connected { output_id, .. } => g.output_node(output_id) is Some,
        _ => true,
    }
}

fn remove_node_exec(v: &mut Vec<NodeId>, x: NodeId)
    ensures
        final(v)@ == remove_node(old(v)@, x),
{
    let ghost s = v@;
    let mut r: Vec<NodeId> = Vec::new();
    let mut i: usize = 0;
    while i < v.len()
        invariant
            v@ == s,
            0 <= i <= s.len(),
            r@ == remove_node(s.subrange(0, i as int), x),
        decreases s.len() - i,
    {
        assert(s.subrange(0, i + 1).drop_last() =~= s.subrange(0, i as int));
        if v[i] != x {
            r.push(v[i]);
        }
        i = i + 1;
    }
    assert(s.subrange(0, s.len() as int) =~= s);
    *v = r;
}

fn insert_node_exec(v: &mut Vec<NodeId>, x: NodeId)
    ensures
        final(v)@ == insert_node(old(v)@, x),
{
    if !contains_node(v, x) {
        v.push(x);
    }
}

/// The updater of a node: it watches what the node's shader is made from, and
/// rebuilds the shader when that changes. `O` loads models for model nodes.
pub enum UpdateShader<O> {
    Isf(IsfUpdater),
    Obj(O),
    Expression(GlExpressionUpdater),
}

impl<O> UpdateShader<O> {
    /// The updater for a kind of node: ISF shaders watch their file (seen as
    /// modified now), models use the given loader, expressions start with no
    /// source; the shared output has none.
    pub fn new(template: &NodeType, obj_loader: O) -> (r: Option<Self>)
        ensures
            template is Isf <==> r matches Some(UpdateShader::Isf(_)),
            template is ObjRender <==> r == Some(UpdateShader::<O>::Obj(obj_loader)),
            template is Expression <==> (r matches Some(UpdateShader::Expression(u)) && u.frag_source is None),
            template is SharedOut <==> r is None,
    {
        match template {
            NodeType::Isf { .. } => Some(UpdateShader::Isf(IsfUpdater { modified: now_nanos() })),
            NodeType::ObjRender => Some(UpdateShader::Obj(obj_loader)),
            NodeType::Expression { .. } => Some(
                UpdateShader::Expression(GlExpressionUpdater { frag_source: None }),
            ),
            NodeType::SharedOut => None,
        }
    }
}

/// What a node's parameter offers its updater: a file path (`None` while none
/// is chosen), a text, or neither.
#[derive(Clone, Debug)]
pub enum ParamSource {
    Path(Option<String>),
    Text(String),
    Other,
}

/// What an updater does in a frame: check its ISF file, load a model from a
/// path, rebuild an expression shader from a text, or nothing.
#[derive(Clone, Debug)]
pub enum UpdateStep {
    ReloadIsf,
    LoadObj(String),
    RebuildExpression(String),
    Nothing,
}

/// The kind of shader a node has been given.
#[derive(Clone, Copy, Debug, PartialEq, Eq, Structural)]
pub enum ShaderKind {
    Isf,
    SpoutOut,
    Obj,
    Expression,
}

/// The value of the first path parameter among `inputs[i..]`, if there is one.
pub open spec fn first_path(inputs: Seq<ParamSource>, i: int) -> Option<Option<String>>
    decreases inputs.len() - i,
{
    if i < 0 || i >= inputs.len() {
        None
    } else {
        match inputs[i] {
            ParamSource::Path(p) => Some(p),
            _ => first_path(inputs, i + 1),
        }
    }
}

/// The first text parameter among `inputs[i..]`, if there is one.
pub open spec fn first_text(inputs: Seq<ParamSource>, i: int) -> Option<String>
    decreases inputs.len() - i,
{
    if i < 0 || i >= inputs.len() {
        None
    } else {
        match inputs[i] {
            ParamSource::Text(t) => Some(t),
            _ => first_text(inputs, i + 1),
        }
    }
}

/// The step of an updater for a node of kind `template` whose shader, if it has
/// one, is of kind `shader`, with parameters `inputs`: nothing for a node
/// without a shader; an ISF updater of an ISF node with an ISF shader checks
/// its file; a model loader of a node with a model shader loads the first path
/// parameter where that path is chosen; an expression updater of an expression
/// node with an expression shader rebuilds from the first text parameter;
/// nothing otherwise.
pub open spec fn update_step_spec<O>(
    u: UpdateShader<O>,
    template: NodeType,
    shader: Option<ShaderKind>,
    inputs: Seq<ParamSource>,
) -> UpdateStep {
    match u {
        UpdateShader::Isf(_) => if template is Isf && shader == Some(ShaderKind::Isf) {
            UpdateStep::ReloadIsf
        } else {
            UpdateStep::Nothing
        },
        UpdateShader::Obj(_) => if shader == Some(ShaderKind::Obj) {
            match first_path(inputs, 0) {
                Some(Some(p)) => UpdateStep::LoadObj(p),
                _ => UpdateStep::Nothing,
            }
        } else {
            UpdateStep::Nothing
        },
        UpdateShader::Expression(_) => if template is Expression && shader == Some(ShaderKind::Expression) {
            match first_text(inputs, 0) {
                Some(t) => UpdateStep::RebuildExpression(t),
                None => UpdateStep::Nothing,
            }
        } else {
            UpdateStep::Nothing
        },
    }
}

/// Law of the updaters: each frame, an ISF updater of an ISF node whose
/// shader is an ISF shader checks the shader's file, whatever the node's
/// parameters; a model loader of a node with a model shader loads the path of
/// its first path parameter once one is chosen; an expression updater of an
/// expression node with an expression shader rebuilds from its first text
/// parameter. A node without a shader takes no step.
pub proof fn law_update_steps<O>(
    u: UpdateShader<O>,
    template: NodeType,
    inputs: Seq<ParamSource>,
    path: String,
    text: String,
)
    ensures
        u is Isf && template is Isf ==> update_step_spec(u, template, Some(ShaderKind::Isf), inputs)
            == UpdateStep::ReloadIsf,
        u is Obj && inputs.len() > 0 && inputs[0] == ParamSource::Path(Some(path)) ==> update_step_spec(
            u,
            template,
            Some(ShaderKind::Obj),
            inputs,
        ) == UpdateStep::LoadObj(path),
        u is Obj && inputs.len() > 0 && inputs[0] == ParamSource::Path(None) ==> update_step_spec(
            u,
            template,
            Some(ShaderKind::Obj),
            inputs,
        ) == UpdateStep::Nothing,
        u is Expression && template is Expression && inputs.len() > 0 && inputs[0] == ParamSource::Text(text)
            ==> update_step_spec(u, template, Some(ShaderKind::Expression), inputs) == UpdateStep::RebuildExpression(
            text,
        ),
        update_step_spec(u, template, None, inputs) == UpdateStep::Nothing,
{
}

fn find_first_path(inputs: &Vec<ParamSource>) -> (r: Option<Option<String>>)
    ensures
        r == first_path(inputs@, 0),
{
    let mut i: usize = 0;
    while i < inputs.len()
        invariant
            0 <= i <= inputs@.len(),
            first_path(inputs@, 0) == first_path(inputs@, i as int),
        decreases inputs@.len() - i,
    {
        match &inputs[i] {
            ParamSource::Path(p) => {
                return Some(p.clone());
            },
            _ => {},
        }
        i = i + 1;
    }
    None
}

fn find_first_text(inputs: &Vec<ParamSource>) -> (r: Option<String>)
    ensures
        r == first_text(inputs@, 0),
{
    let mut i: usize = 0;
    while i < inputs.len()
        invariant
            0 <= i <= inputs@.len(),
            first_text(inputs@, 0) == first_text(inputs@, i as int),
        decreases inputs@.len() - i,
    {
        match &inputs[i] {
            ParamSource::Text(t) => {
                return Some(t.clone());
            },
            _ => {},
        }
        i = i + 1;
    }
    None
}

impl<O> UpdateShader<O> {
    /// What this updater does this frame for a node of kind `template` whose
    /// shader is of kind `shader` (`None` where it has none) and whose
    /// parameters offer `inputs` (see `update_step_spec`).
    pub fn update_step(&self, template: &NodeType, shader: Option<ShaderKind>, inputs: &Vec<ParamSource>) -> (r: UpdateStep)
        ensures
            r == update_step_spec(*self, *template, shader, inputs@),
    {
        match self {
            UpdateShader::Isf(_) => match (template, shader) {
                (NodeType::Isf { .. }, Some(ShaderKind::Isf)) => UpdateStep::ReloadIsf,
                _ => UpdateStep::Nothing,
            },
            UpdateShader::Obj(_) => match shader {
                Some(ShaderKind::Obj) => match find_first_path(inputs) {
                    Some(Some(p)) => UpdateStep::LoadObj(p),
                    _ => UpdateStep::Nothing,
                },
                _ => UpdateStep::Nothing,
            },
            UpdateShader::Expression(_) => match (template, shader) {
                (NodeType::Expression { .. }, Some(ShaderKind::Expression)) => match find_first_text(inputs) {
                    Some(t) => UpdateStep::RebuildExpression(t),
                    None => UpdateStep::Nothing,
                },
                _ => UpdateStep::Nothing,
            },
        }
    }
}

/// When the updaters last ran.
pub struct UpdateTracker {
    pub last_update: std::time::Instant,
}

impl UpdateTracker {
    /// A tracker that last ran now (`Instant::now`, a clock reading of which
    /// nothing can be promised).
    pub fn default() -> (r: Self) {
        UpdateTracker { last_update: instant_now() }
    }
}

/// The node ids of `v`, in order.
pub open spec fn keys_of<V>(v: Seq<(NodeId, V)>) -> Seq<NodeId> {
    v.map_values(|e: (NodeId, V)| e.0)
}

/// The updater of node `n` in `v`, the last one where there are several.
pub open spec fn lookup<V>(v: Seq<(NodeId, V)>, n: NodeId) -> Option<V>
    decreases v.len(),
{
    if v.len() == 0 {
        None
    } else if v.last().0 == n {
        Some(v.last().1)
    } else {
        lookup(v.drop_last(), n)
    }
}

/// `after` holds the updaters of `before` brought up to date with `event` on
/// `graph`: a new node gets the updater for its kind (none for the shared
/// output) and the others keep theirs, a destroyed node loses its own, and
/// connections change nothing.
pub open spec fn updaters_follow<O>(
    graph: GraphModel,
    before: NodeUpdaters<O>,
    after: NodeUpdaters<O>,
    event: GraphChangeEvent,
) -> bool {
    &&& match event {
        GraphChangeEvent::CreatedNode(n) => forall|k: NodeId| k != n ==> #[trigger] after.updater_of(k) == before.updater_of(k),
        GraphChangeEvent::DestroyedNode(n) => forall|k: NodeId| #[trigger] after.updater_of(k) == if k == n {
            None
        } else {
            before.updater_of(k)
        },
        _ => after.updaters@ == before.updaters@,
    }
    &&& event matches GraphChangeEvent::CreatedNode(n) ==> match graph.node_template(n) {
        NodeType::SharedOut => after.updater_of(n) == before.updater_of(n),
        NodeType::Isf { .. } => after.updater_of(n) matches Some(UpdateShader::Isf(_)),
        NodeType::ObjRender => after.updater_of(n) matches Some(UpdateShader::Obj(_)),
        NodeType::Expression { .. } => (after.updater_of(n) matches Some(UpdateShader::Expression(u))
            && u.frag_source is None),
    }
}

/// The updaters of the nodes that have one.
pub struct NodeUpdaters<O> {
    pub update_info: UpdateTracker,
    pub updaters: Vec<(NodeId, UpdateShader<O>)>,
}

impl<O> NodeUpdaters<O> {
    /// No updaters yet.
    pub fn new() -> (r: Self)
        ensures
            r.updaters@.len() == 0,
    {
        NodeUpdaters { update_info: UpdateTracker::default(), updaters: Vec::new() }
    }

    /// The updater of node `n`, if it has one.
    pub open spec fn updater_of(self, n: NodeId) -> Option<UpdateShader<O>> {
        lookup(self.updaters@, n)
    }

    fn remove_updater(&mut self, n: NodeId)
        ensures
            forall|k: NodeId| #[trigger] lookup(final(self).updaters@, k) == if k == n {
                None
            } else {
                lookup(old(self).updaters@, k)
            },
    {
        let mut kept: Vec<(NodeId, UpdateShader<O>)> = Vec::new();
        let ghost all = self.updaters@;
        let n0 = self.updaters.len();
        let ghost len = all.len();
        let mut old_entries = Vec::new();
        std::mem::swap(&mut old_entries, &mut self.updaters);
        assert(old_entries@ == all);
        let mut i: usize = 0;
        while old_entries.len() > 0
            invariant
                len == all.len(),
                len == n0,
                i + old_entries@.len() == len,
                old_entries@ == all.subrange(i as int, len as int),
                forall|k: NodeId| #[trigger] lookup(kept@, k) == if k == n {
                    None
                } else {
                    lookup(all.subrange(0, i as int), k)
                },
            decreases old_entries@.len(),
        {
            let e = old_entries.remove(0);
            assert(e == all[i as int]);
            proof {
                let pre = all.subrange(0, i as int);
                assert(all.subrange(0, i + 1).drop_last() =~= pre);
                assert(all.subrange(0, i + 1).last() == e);
            }
            let ghost kept0 = kept@;
            let ghost pre = all.subrange(0, i as int);
            let ghost post = all.subrange(0, i + 1);
            if e.0 != n {
                kept.push(e);
                assert(kept@.drop_last() =~= kept0);
            }
            assert forall|k: NodeId| #[trigger] lookup(kept@, k) == if k == n {
                None
            } else {
                lookup(post, k)
            } by {
                assert(post.drop_last() =~= pre);
                assert(post.last() == e);
                assert(lookup(kept0, k) == if k == n { None } else { lookup(pre, k) });
            }
            i = i + 1;
            assert(old_entries@ =~= all.subrange(i as int, len as int));
        }
        assert(all.subrange(0, len as int) =~= all);
        self.updaters = kept;
    }

    /// Keeps track of the updaters as the graph changes: a new node gets the
    /// updater for its kind (the model loader made by `new_loader`), a
    /// destroyed node loses its own, and connections change nothing.
    pub fn graph_event<F: Fn() -> O>(&mut self, graph: &GraphModel, event: GraphChangeEvent, new_loader: &F)
        requires
            event_fits(*graph, event),
            new_loader.requires(()),
        ensures
            updaters_follow(*graph, *old(self), *final(self), event),
            match event {
                GraphChangeEvent::CreatedNode(n) => graph.node_template(n) is ObjRender ==> exists|l: O|
                    final(self).updater_of(n) == Some(UpdateShader::Obj(l)) && new_loader.ensures((), l),
                _ => true,
            },
    {
        match event {
            GraphChangeEvent::CreatedNode(node_id) => {
                proof {
                    crate::graph::lemma_find_node_from(graph.nodes@, node_id, 0);
                }
                let idx = graph.find_node(node_id).unwrap();
                let template = &graph.nodes[idx].template;
                let loader = new_loader();
                let ghost made = loader;
                match UpdateShader::new(template, loader) {
                    Some(updater) => {
                        self.remove_updater(node_id);
                        let ghost before = self.updaters@;
                        self.updaters.push((node_id, updater));
                        assert(self.updaters@.drop_last() =~= before);
                        assert forall|k: NodeId| k != node_id implies #[trigger] lookup(self.updaters@, k) == lookup(before, k) by {
                        }
                        assert(template is ObjRender ==> self.updater_of(node_id) == Some(UpdateShader::Obj(made)));
                    },
                    None => {},
                }

            },
            GraphChangeEvent::DestroyedNode(node_id) => {
                self.remove_updater(node_id);
            },
            _ => {},
        }
    }
}

/// How many of `n` nodes the first `i` events of a replay have created.
pub open spec fn prefix_count(i: int, n: int) -> int {
    if i < n { i } else { n }
}

/// A node with id `k` is among the first `c` nodes of the graph.
pub open spec fn created_before(g: GraphModel, k: NodeId, c: int) -> bool {
    exists|j: int| 0 <= j < c && g.nodes@[j].id == k
}

/// The updater of node `k` in `after` is the one for its kind: as in `before`
/// for the shared output, else one of its kind, an expression's with no source yet.
pub open spec fn updater_fits_kind<O>(g: GraphModel, before: NodeUpdaters<O>, after: NodeUpdaters<O>, k: NodeId) -> bool {
    match g.node_template(k) {
        NodeType::SharedOut => after.updater_of(k) == before.updater_of(k),
        NodeType::Isf { .. } => after.updater_of(k) matches Some(UpdateShader::Isf(_)),
        NodeType::ObjRender => after.updater_of(k) matches Some(UpdateShader::Obj(_)),
        NodeType::Expression { .. } => (after.updater_of(k) matches Some(UpdateShader::Expression(u))
            && u.frag_source is None),
    }
}

/// What the graph processor keeps between frames: the nodes that end a chain
/// and the updaters of the nodes.
pub struct GraphShaderProcessor<O> {
    pub terminating_nodes: Vec<NodeId>,
    pub updater: NodeUpdaters<O>,
}

impl<O> GraphShaderProcessor<O> {
    /// A processor that has seen no node yet.
    pub fn new() -> (r: Self)
        ensures
            r.terminating_nodes@.len() == 0,
            r.updater.updaters@.len() == 0,
    {
        GraphShaderProcessor { terminating_nodes: Vec::new(), updater: NodeUpdaters::new() }
    }

    /// Marks a node as ending a chain.
    pub fn add_dangling_output(&mut self, node_id: NodeId)
        ensures
            final(self).terminating_nodes@ == insert_node(old(self).terminating_nodes@, node_id),
            final(self).updater == old(self).updater,
    {
        insert_node_exec(&mut self.terminating_nodes, node_id);
    }

    /// Follows a change to the graph's structure (see `terminating_after`), and
    /// keeps the updaters in step with it.
    pub fn graph_event<F: Fn() -> O>(&mut self, graph: &GraphModel, event: GraphChangeEvent, new_loader: &F)
        requires
            event_fits(*graph, event),
            new_loader.requires(()),
        ensures
            final(self).terminating_nodes@ == terminating_after(*graph, old(self).terminating_nodes@, event),
            updaters_follow(*graph, old(self).updater, final(self).updater, event),
            match event {
                GraphChangeEvent::CreatedNode(n) => graph.node_template(n) is ObjRender ==> exists|l: O|
                    final(self).updater.updater_of(n) == Some(UpdateShader::Obj(l)) && new_loader.ensures((), l),
                _ => true,
            },
            old(self).terminating_nodes@.no_duplicates() ==> final(self).terminating_nodes@.no_duplicates(),
    {
        proof {
            if old(self).terminating_nodes@.no_duplicates() {
                law_terminating_nodes_stay_unique(*graph, old(self).terminating_nodes@, event);
            }
        }
        match event {
            GraphChangeEvent::CreatedNode(node_id) => {
                proof {
                    crate::graph::lemma_find_node_from(graph.nodes@, node_id, 0);
                }
                let idx = graph.find_node(node_id).unwrap();
                let ins = &graph.nodes[idx].inputs;
                let ghost s0 = self.terminating_nodes@;
                let ghost u0 = self.updater;
                let mut i: usize = 0;
                while i < ins.len()
                    invariant
                        self.updater == u0,
                        ins@ == graph.node_inputs(node_id),
                        0 <= i <= ins@.len(),
                        self.terminating_nodes@ == remove_nodes(s0, texture_sources(*graph, ins@.subrange(0, i as int))),
                    decreases ins@.len() - i,
                {
                    assert(ins@.subrange(0, i + 1).drop_last() =~= ins@.subrange(0, i as int));
                    if ins[i].typ == ConnectionType::Texture2D {
                        match graph.source(ins[i].id) {
                            Some(s) => {
                                remove_node_exec(&mut self.terminating_nodes, s);
                                proof {
                                    let pre = texture_sources(*graph, ins@.subrange(0, i as int));
                                    assert(texture_sources(*graph, ins@.subrange(0, i + 1)) =~= pre.push(s));
                                    assert(pre.push(s).drop_last() =~= pre);
                                }
                            },
                            None => {
                                assert(texture_sources(*graph, ins@.subrange(0, i + 1)) =~= texture_sources(*graph, ins@.subrange(0, i as int)));
                            },
                        }
                    } else {
                        assert(texture_sources(*graph, ins@.subrange(0, i + 1)) =~= texture_sources(*graph, ins@.subrange(0, i as int)));
                    }
                    i = i + 1;
                }
                assert(ins@.subrange(0, ins@.len() as int) =~= ins@);
                self.add_dangling_output(node_id);
            },
            GraphChangeEvent::Disconnected { output_id, .. } => {
                match graph.try_get_output(output_id) {
                    Some(output) => self.add_dangling_output(output.node),
                    None => {},
                }
            },
            GraphChangeEvent::Connected { output_id, .. } => {
                let output = graph.try_get_output(output_id).unwrap();
                remove_node_exec(&mut self.terminating_nodes, output.node);
            },
            GraphChangeEvent::DestroyedNode(node_id) => {
                remove_node_exec(&mut self.terminating_nodes, node_id);
            },
        }
        self.updater.graph_event(graph, event, new_loader);
    }

    /// Brings the processor up to date with a whole graph, by the events that
    /// build it from nothing.
    #[verifier::spinoff_prover]
    pub fn apply_events_from_graph<F: Fn() -> O>(&mut self, graph: &GraphModel, new_loader: &F)
        requires
            graph.connections_fit(),
            new_loader.requires(()),
        ensures
            final(self).terminating_nodes@ == terminating_after_all(
                *graph,
                old(self).terminating_nodes@,
                events_from_graph(*graph),
            ),
            forall|k: NodeId| #[trigger] is_node_id(*graph, k) ==> updater_fits_kind(
                *graph,
                old(self).updater,
                final(self).updater,
                k,
            ),
            forall|k: NodeId| !is_node_id(*graph, k) ==> #[trigger] final(self).updater.updater_of(k)
                == old(self).updater.updater_of(k),
            old(self).terminating_nodes@.no_duplicates() ==> final(self).terminating_nodes@.no_duplicates(),
    {
        let events = GraphChangeEvent::vec_from_graph(graph);
        let ghost s0 = self.terminating_nodes@;
        let ghost u0 = self.updater;
        let ghost nn = graph.nodes@.len() as int;
        let mut i: usize = 0;
        while i < events.len()
            invariant
                events@ == events_from_graph(*graph),
                nn == graph.nodes@.len(),
                graph.connections_fit(),
                new_loader.requires(()),
                0 <= i <= events@.len(),
                self.terminating_nodes@ == terminating_after_all(*graph, s0, events@.subrange(0, i as int)),
                forall|k: NodeId| #[trigger] created_before(*graph, k, prefix_count(i as int, nn))
                    ==> updater_fits_kind(*graph, u0, self.updater, k),
                forall|k: NodeId| !created_before(*graph, k, prefix_count(i as int, nn))
                    ==> #[trigger] self.updater.updater_of(k) == u0.updater_of(k),
            decreases events@.len() - i,
        {
            proof {
                lemma_events_fit(*graph, i as int);
            }
            let ghost before = self.updater;
            let ghost c0: int = prefix_count(i as int, nn);
            self.graph_event(graph, events[i], new_loader);
            proof {
                let c1: int = prefix_count(i + 1, nn);
                if (i as int) < nn {
                    let n = graph.nodes@[i as int].id;
                    assert(events@[i as int] == GraphChangeEvent::CreatedNode(n));
                    assert forall|k: NodeId| #[trigger] created_before(*graph, k, c1) implies updater_fits_kind(
                        *graph,
                        u0,
                        self.updater,
                        k,
                    ) by {
                        if k != n {
                            let j = choose|j: int| 0 <= j < c1 && graph.nodes@[j].id == k;
                            assert(created_before(*graph, k, c0));
                            assert(self.updater.updater_of(k) == before.updater_of(k));
                        } else if !created_before(*graph, k, c0) {
                            assert(before.updater_of(k) == u0.updater_of(k));
                        }
                    }
                    assert forall|k: NodeId| !created_before(*graph, k, c1) implies #[trigger] self.updater.updater_of(k)
                        == u0.updater_of(k) by {
                        assert(graph.nodes@[i as int].id == n);
                        if k == n {
                            assert(created_before(*graph, k, c1));
                        }
                        assert(!created_before(*graph, k, c0));
                    }
                } else {
                    let c = graph.connections@[i - nn];
                    assert(events@[i as int] == GraphChangeEvent::Connected { output_id: c.1, input_id: c.0 });
                    assert(self.updater.updaters@ == before.updaters@);
                    assert(c1 == c0);
                    assert forall|k: NodeId| !created_before(*graph, k, c1) implies #[trigger] self.updater.updater_of(k)
                        == u0.updater_of(k) by {
                        assert(before.updater_of(k) == u0.updater_of(k));
                    }
                    assert forall|k: NodeId| #[trigger] created_before(*graph, k, c1) implies updater_fits_kind(
                        *graph,
                        u0,
                        self.updater,
                        k,
                    ) by {
                        assert(self.updater.updater_of(k) == before.updater_of(k));
                    }
                }
            }
            assert(events@.subrange(0, i + 1).drop_last() =~= events@.subrange(0, i as int));
            i = i + 1;
        }
        proof {
            if old(self).terminating_nodes@.no_duplicates() {
                law_terminating_nodes_stay_unique_all(*graph, s0, events@);
            }
            assert forall|k: NodeId| #[trigger] is_node_id(*graph, k) implies created_before(*graph, k, nn) by {
                let j = choose|j: int| 0 <= j < graph.nodes@.len() && (#[trigger] graph.nodes@[j]).id == k;
                assert(graph.nodes@[j].id == k);
            }
            assert forall|k: NodeId| #[trigger] created_before(*graph, k, nn) implies is_node_id(*graph, k) by {
                let j = choose|j: int| 0 <= j < nn && graph.nodes@[j].id == k;
                assert(graph.nodes@[j].id == k);
            }
        }
        assert(events@.subrange(0, events@.len() as int) =~= events@);
    }

    /// For each node that ends a chain, the order in which to evaluate the
    /// nodes to render it (`None` where the walk meets a cycle).
    pub fn render_plans(&self, graph: &GraphModel) -> (r: Vec<(NodeId, Option<Vec<NodeId>>)>)
        requires
            graph.nodes@.len() < usize::MAX,
        ensures
            r@.len() == self.terminating_nodes@.len(),
            forall|i: int|
                0 <= i < r@.len() ==> (#[trigger] r@[i]).0 == self.terminating_nodes@[i] && match r@[i].1 {
                    Some(v) => graph.evaluation_order_spec(r@[i].0) == Some(v@),
                    None => graph.evaluation_order_spec(r@[i].0) is None,
                },
    {
        let mut r: Vec<(NodeId, Option<Vec<NodeId>>)> = Vec::new();
        let mut i: usize = 0;
        while i < self.terminating_nodes.len()
            invariant
                graph.nodes@.len() < usize::MAX,
                0 <= i <= self.terminating_nodes@.len(),
                r@.len() == i,
                forall|k: int|
                    0 <= k < i ==> (#[trigger] r@[k]).0 == self.terminating_nodes@[k] && match r@[k].1 {
                        Some(v) => graph.evaluation_order_spec(r@[k].0) == Some(v@),
                        None => graph.evaluation_order_spec(r@[k].0) is None,
                    },
            decreases self.terminating_nodes@.len() - i,
        {
            let t = self.terminating_nodes[i];
            r.push((t, graph.evaluation_order(t)));
            i = i + 1;
        }
        r
    }
}

/// What rendering a node gave in a frame: done, or an error with its message.
#[derive(Clone, Debug)]
pub enum RenderOutcome {
    Rendered,
    Failed(String),
}

/// The message of the last failed render of node `n` among `outcomes`, if any.
pub open spec fn last_failure(outcomes: Seq<(NodeId, RenderOutcome)>, n: NodeId) -> Option<String>
    decreases outcomes.len(),
{
    if outcomes.len() == 0 {
        None
    } else {
        match outcomes.last() {
            (m, RenderOutcome::Failed(e)) => if m == n {
                Some(e)
            } else {
                last_failure(outcomes.drop_last(), n)
            },
            _ => last_failure(outcomes.drop_last(), n),
        }
    }
}

fn last_failure_of(outcomes: &Vec<(NodeId, RenderOutcome)>, n: NodeId) -> (r: Option<String>)
    ensures
        r == last_failure(outcomes@, n),
{
    let mut r: Option<String> = None;
    let mut k: usize = 0;
    while k < outcomes.len()
        invariant
            0 <= k <= outcomes@.len(),
            r == last_failure(outcomes@.subrange(0, k as int), n),
        decreases outcomes@.len() - k,
    {
        assert(outcomes@.subrange(0, k + 1).drop_last() =~= outcomes@.subrange(0, k as int));
        match &outcomes[k] {
            (m, RenderOutcome::Failed(e)) => {
                if *m == n {
                    r = Some(e.clone());
                }
            },
            _ => {},
        }
        k = k + 1;
    }
    assert(outcomes@.subrange(0, k as int) =~= outcomes@);
    r
}

/// The error each node of the graph shows after a frame, in the order of the
/// nodes: the message of its last failed render in that frame, or none, which
/// clears an error shown before.
pub fn node_errors(graph: &GraphModel, outcomes: &Vec<(NodeId, RenderOutcome)>) -> (r: Vec<(NodeId, Option<String>)>)
    ensures
        r@.len() == graph.nodes@.len(),
        forall|i: int|
            0 <= i < r@.len() ==> (#[trigger] r@[i]).0 == graph.nodes@[i].id && r@[i].1 == last_failure(
                outcomes@,
                graph.nodes@[i].id,
            ),
{
    let mut r: Vec<(NodeId, Option<String>)> = Vec::new();
    let mut i: usize = 0;
    while i < graph.nodes.len()
        invariant
            0 <= i <= graph.nodes@.len(),
            r@.len() == i,
            forall|k: int|
                0 <= k < i ==> (#[trigger] r@[k]).0 == graph.nodes@[k].id && r@[k].1 == last_failure(
                    outcomes@,
                    graph.nodes@[k].id,
                ),
        decreases graph.nodes@.len() - i,
    {
        let id = graph.nodes[i].id;
        r.push((id, last_failure_of(outcomes, id)));
        i = i + 1;
    }
    r
}

/// Node `x` is one of the graph's nodes.
pub open spec fn is_node_id(g: GraphModel, x: NodeId) -> bool {
    exists|i: int| 0 <= i < g.nodes@.len() && (#[trigger] g.nodes@[i]).id == x
}

/// One of `x`'s outputs is connected to an input.
pub open spec fn output_connected(g: GraphModel, x: NodeId) -> bool {
    exists|j: int| 0 <= j < g.connections@.len() && g.output_node((#[trigger] g.connections@[j]).1) == Some(x)
}

proof fn lemma_remove_node(s: Seq<NodeId>, x: NodeId, y: NodeId)
    ensures
        remove_node(s, x).contains(y) <==> (s.contains(y) && y != x),
    decreases s.len(),
{
    if s.len() > 0 {
        lemma_remove_node(s.drop_last(), x, y);
        if s.contains(y) && y != x {
            let k = choose|k: int| 0 <= k < s.len() && s[k] == y;
            if k < s.len() - 1 {
                assert(s.drop_last()[k] == y);
            }
        }
        if s.drop_last().contains(y) {
            let k = choose|k: int| 0 <= k < s.drop_last().len() && s.drop_last()[k] == y;
            assert(s[k] == y);
        }
        let r = remove_node(s.drop_last(), x);
        if s.last() != x {
            if r.push(s.last()).contains(y) && y != s.last() {
                let k = choose|k: int| 0 <= k < r.push(s.last()).len() && r.push(s.last())[k] == y;
                assert(r[k] == y);
            }
            if r.contains(y) {
                let k = choose|k: int| 0 <= k < r.len() && r[k] == y;
                assert(r.push(s.last())[k] == y);
            }
            assert(r.push(s.last())[r.len() as int] == s.last());
        }
    }
}

proof fn lemma_insert_node(s: Seq<NodeId>, x: NodeId, y: NodeId)
    ensures
        insert_node(s, x).contains(y) <==> (s.contains(y) || y == x),
{
    if !s.contains(x) {
        assert(s.push(x)[s.len() as int] == x);
        if s.contains(y) {
            let k = choose|k: int| 0 <= k < s.len() && s[k] == y;
            assert(s.push(x)[k] == y);
        }
        if s.push(x).contains(y) && y != x {
            let k = choose|k: int| 0 <= k < s.push(x).len() && s.push(x)[k] == y;
            assert(s[k] == y);
        }
    }
}

proof fn lemma_remove_nodes(s: Seq<NodeId>, xs: Seq<NodeId>, y: NodeId)
    ensures
        remove_nodes(s, xs).contains(y) <==> (s.contains(y) && !xs.contains(y)),
    decreases xs.len(),
{
    if xs.len() > 0 {
        lemma_remove_nodes(s, xs.drop_last(), y);
        lemma_remove_node(remove_nodes(s, xs.drop_last()), xs.last(), y);
        if xs.contains(y) && y != xs.last() {
            let k = choose|k: int| 0 <= k < xs.len() && xs[k] == y;
            assert(xs.drop_last()[k] == y);
        }
        if xs.drop_last().contains(y) {
            let k = choose|k: int| 0 <= k < xs.drop_last().len() && xs.drop_last()[k] == y;
            assert(xs[k] == y);
        }
        assert(xs[xs.len() - 1] == xs.last());
    }
}

proof fn lemma_source_connected(g: GraphModel, input: crate::graph::InputId)
    ensures
        g.source_of(input) matches Some(y) ==> output_connected(g, y),
{
    crate::graph::lemma_find_connection_from(g.connections@, input, 0);
    if let Some(y) = g.source_of(input) {
        let j = crate::graph::find_connection_from(g.connections@, input, 0)->0;
        assert(g.output_node(g.connections@[j].1) == Some(y));
    }
}

proof fn lemma_texture_sources_connected(g: GraphModel, ins: Seq<InputEntry>, y: NodeId)
    ensures
        texture_sources(g, ins).contains(y) ==> output_connected(g, y),
    decreases ins.len(),
{
    if ins.len() > 0 {
        lemma_texture_sources_connected(g, ins.drop_last(), y);
        lemma_source_connected(g, ins.last().id);
        let pre = texture_sources(g, ins.drop_last());
        if texture_sources(g, ins).contains(y) {
            let k = choose|k: int| 0 <= k < texture_sources(g, ins).len() && texture_sources(g, ins)[k] == y;
            if k < pre.len() {
                assert(pre[k] == y);
            }
        }
    }
}

proof fn lemma_creation_phase(g: GraphModel, k: int)
    requires
        0 <= k <= g.nodes@.len(),
    ensures
        forall|y: NodeId|
            #[trigger] terminating_after_all(g, Seq::empty(), events_from_graph(g).subrange(0, k)).contains(y)
                ==> exists|i: int| 0 <= i < k && g.nodes@[i].id == y,
        forall|i: int|
            0 <= i < k && !output_connected(g, #[trigger] g.nodes@[i].id) ==> terminating_after_all(
                g,
                Seq::empty(),
                events_from_graph(g).subrange(0, k),
            ).contains(g.nodes@[i].id),
    decreases k,
{
    let ev = events_from_graph(g);
    let empty = Seq::<NodeId>::empty();
    if k == 0 {
        assert(ev.subrange(0, 0) =~= Seq::<GraphChangeEvent>::empty());
    } else {
        let k0 = k - 1;
        lemma_creation_phase(g, k0);
        let s = terminating_after_all(g, empty, ev.subrange(0, k0));
        assert(ev.subrange(0, k).drop_last() =~= ev.subrange(0, k0));
        let n = g.nodes@[k0].id;
        assert(ev[k0] == GraphChangeEvent::CreatedNode(n));
        let t = texture_sources(g, g.node_inputs(n));
        let s2 = terminating_after_all(g, empty, ev.subrange(0, k));
        assert(s2 == insert_node(remove_nodes(s, t), n));
        assert forall|y: NodeId| #[trigger] s2.contains(y) implies exists|i: int| 0 <= i < k && g.nodes@[i].id == y by {
            lemma_insert_node(remove_nodes(s, t), n, y);
            lemma_remove_nodes(s, t, y);
            if y != n {
                let i = choose|i: int| 0 <= i < k0 && g.nodes@[i].id == y;
                assert(0 <= i < k && g.nodes@[i].id == y);
            }
        }
        assert forall|i: int| 0 <= i < k && !output_connected(g, #[trigger] g.nodes@[i].id) implies s2.contains(
            g.nodes@[i].id,
        ) by {
            let y = g.nodes@[i].id;
            lemma_insert_node(remove_nodes(s, t), n, y);
            lemma_remove_nodes(s, t, y);
            lemma_texture_sources_connected(g, g.node_inputs(n), y);
        }
    }
}

proof fn lemma_connection_phase(g: GraphModel, c: int)
    requires
        g.connections_fit(),
        0 <= c <= g.connections@.len(),
    ensures
        forall|y: NodeId|
            #[trigger] terminating_after_all(
                g,
                Seq::empty(),
                events_from_graph(g).subrange(0, g.nodes@.len() + c),
            ).contains(y) <==> (terminating_after_all(
                g,
                Seq::empty(),
                events_from_graph(g).subrange(0, g.nodes@.len() as int),
            ).contains(y) && !(exists|j: int|
                0 <= j < c && g.output_node((#[trigger] g.connections@[j]).1) == Some(y))),
    decreases c,
{
    let ev = events_from_graph(g);
    let empty = Seq::<NodeId>::empty();
    let nn = g.nodes@.len() as int;
    let s1 = terminating_after_all(g, empty, ev.subrange(0, nn));
    if c > 0 {
        let c0 = c - 1;
        lemma_connection_phase(g, c0);
        let s = terminating_after_all(g, empty, ev.subrange(0, nn + c0));
        assert(ev.subrange(0, nn + c).drop_last() =~= ev.subrange(0, nn + c0));
        let conn = g.connections@[c0];
        assert(ev[nn + c0] == GraphChangeEvent::Connected { output_id: conn.1, input_id: conn.0 });
        assert(g.output_entry(g.connections@[c0].1) is Some);
        let x = g.output_node(conn.1)->0;
        let s2 = terminating_after_all(g, empty, ev.subrange(0, nn + c));
        assert(s2 == remove_node(s, x));
        assert forall|y: NodeId| #[trigger] s2.contains(y) <==> (s1.contains(y) && !(exists|j: int|
            0 <= j < c && g.output_node((#[trigger] g.connections@[j]).1) == Some(y))) by {
            lemma_remove_node(s, x, y);
            if exists|j: int| 0 <= j < c && g.output_node((#[trigger] g.connections@[j]).1) == Some(y) {
                let j = choose|j: int| 0 <= j < c && g.output_node((#[trigger] g.connections@[j]).1) == Some(y);
                if j < c0 {
                    assert(exists|j2: int| 0 <= j2 < c0 && g.output_node((#[trigger] g.connections@[j2]).1) == Some(y));
                }
            }
            if y == x {
                assert(g.output_node((g.connections@[c0]).1) == Some(y));
            }
        }
    } else {
        assert(ev.subrange(0, nn + c) == ev.subrange(0, nn));
    }
}

/// Law of the processor: brought up to date with a whole graph from nothing,
/// it holds as ending a chain exactly the nodes of the graph none of whose
/// outputs is connected.
pub proof fn law_replay_keeps_dangling_nodes(g: GraphModel)
    requires
        g.connections_fit(),
    ensures
        forall|y: NodeId|
            #[trigger] terminating_after_all(g, Seq::empty(), events_from_graph(g)).contains(y) <==> (
            is_node_id(g, y) && !output_connected(g, y)),
{
    let ev = events_from_graph(g);
    let nn = g.nodes@.len() as int;
    let mm = g.connections@.len() as int;
    let empty = Seq::<NodeId>::empty();
    lemma_creation_phase(g, nn);
    lemma_connection_phase(g, mm);
    let s1 = terminating_after_all(g, empty, ev.subrange(0, nn));
    assert(ev.subrange(0, nn + mm) =~= ev);
    assert forall|y: NodeId| #[trigger] terminating_after_all(g, empty, ev).contains(y) <==> (is_node_id(g, y)
        && !output_connected(g, y)) by {
        if is_node_id(g, y) && !output_connected(g, y) {
            let i = choose|i: int| 0 <= i < g.nodes@.len() && (#[trigger] g.nodes@[i]).id == y;
            assert(!output_connected(g, g.nodes@[i].id));
        }
        if s1.contains(y) {
            let i = choose|i: int| 0 <= i < nn && g.nodes@[i].id == y;
            assert(g.nodes@[i].id == y);
        }
        if output_connected(g, y) {
            let j = choose|j: int| 0 <= j < g.connections@.len() && g.output_node((#[trigger] g.connections@[j]).1) == Some(y);
            assert(exists|j2: int| 0 <= j2 < mm && g.output_node((#[trigger] g.connections@[j2]).1) == Some(y));
        }
    }
}

proof fn lemma_push_unique(s: Seq<NodeId>, x: NodeId)
    requires
        s.no_duplicates(),
        !s.contains(x),
    ensures
        s.push(x).no_duplicates(),
{
    let t = s.push(x);
    assert forall|i: int, j: int| 0 <= i < t.len() && 0 <= j < t.len() && i != j implies t[i] != t[j] by {
        if i == s.len() as int {
            assert(s[j] == t[j]);
        } else if j == s.len() as int {
            assert(s[i] == t[i]);
        } else {
            assert(s[i] == t[i] && s[j] == t[j]);
        }
    }
}

proof fn lemma_remove_node_unique(s: Seq<NodeId>, x: NodeId)
    requires
        s.no_duplicates(),
    ensures
        remove_node(s, x).no_duplicates(),
    decreases s.len(),
{
    if s.len() > 0 {
        let d = s.drop_last();
        assert forall|i: int, j: int| 0 <= i < d.len() && 0 <= j < d.len() && i != j implies d[i] != d[j] by {
            assert(d[i] == s[i] && d[j] == s[j]);
        }
        lemma_remove_node_unique(d, x);
        if s.last() != x {
            lemma_remove_node(d, x, s.last());
            if d.contains(s.last()) {
                let k = choose|k: int| 0 <= k < d.len() && d[k] == s.last();
                assert(s[k] == s[s.len() - 1]);
            }
            lemma_push_unique(remove_node(d, x), s.last());
        }
    }
}

proof fn lemma_remove_nodes_unique(s: Seq<NodeId>, xs: Seq<NodeId>)
    requires
        s.no_duplicates(),
    ensures
        remove_nodes(s, xs).no_duplicates(),
    decreases xs.len(),
{
    if xs.len() > 0 {
        lemma_remove_nodes_unique(s, xs.drop_last());
        lemma_remove_node_unique(remove_nodes(s, xs.drop_last()), xs.last());
    }
}

proof fn lemma_insert_node_unique(s: Seq<NodeId>, x: NodeId)
    requires
        s.no_duplicates(),
    ensures
        insert_node(s, x).no_duplicates(),
{
    if !s.contains(x) {
        lemma_push_unique(s, x);
    }
}

/// Law of the processor: no node is ever held twice as ending a chain. Each
/// change to the graph keeps the list of such nodes free of repeats.
pub proof fn law_terminating_nodes_stay_unique(g: GraphModel, s: Seq<NodeId>, event: GraphChangeEvent)
    requires
        s.no_duplicates(),
    ensures
        terminating_after(g, s, event).no_duplicates(),
{
    match event {
        GraphChangeEvent::CreatedNode(n) => {
            let t = texture_sources(g, g.node_inputs(n));
            lemma_remove_nodes_unique(s, t);
            lemma_insert_node_unique(remove_nodes(s, t), n);
        },
        GraphChangeEvent::Disconnected { output_id, .. } => {
            if let Some(x) = g.output_node(output_id) {
                lemma_insert_node_unique(s, x);
            }
        },
        GraphChangeEvent::Connected { output_id, .. } => {
            if let Some(x) = g.output_node(output_id) {
                lemma_remove_node_unique(s, x);
            }
        },
        GraphChangeEvent::DestroyedNode(n) => {
            lemma_remove_node_unique(s, n);
        },
    }
}

/// Law of the processor, over any run of changes: started from a list without
/// repeats, the nodes ending a chain stay without repeats.
pub proof fn law_terminating_nodes_stay_unique_all(g: GraphModel, s: Seq<NodeId>, events: Seq<GraphChangeEvent>)
    requires
        s.no_duplicates(),
    ensures
        terminating_after_all(g, s, events).no_duplicates(),
    decreases events.len(),
{
    if events.len() > 0 {
        law_terminating_nodes_stay_unique_all(g, s, events.drop_last());
        law_terminating_nodes_stay_unique(g, terminating_after_all(g, s, events.drop_last()), events.last());
    }
}

proof fn lemma_events_fit(g: GraphModel, i: int)
    requires
        g.connections_fit(),
        0 <= i < events_from_graph(g).len(),
    ensures
        event_fits(g, events_from_graph(g)[i]),
{
    let nn = g.nodes@.len() as int;
    if i < nn {
        crate::graph::lemma_find_node_from(g.nodes@, g.nodes@[i].id, 0);
    } else {
        let c = g.connections@[i - nn];
        assert(events_from_graph(g)[i] == GraphChangeEvent::Connected { output_id: c.1, input_id: c.0 });
    }
}

} // verus!
