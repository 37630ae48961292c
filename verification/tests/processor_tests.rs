use render_graph::connections::ConnectionType;
use render_graph::events::{AnyParameterId, GraphChangeEvent, NodeResponse};
use render_graph::graph::{GraphModel, InputEntry, InputId, NodeEntry, NodeId, OutputEntry, OutputId};
use render_graph::node_types::NodeType;
use render_graph::gl_expression::GlExpressionUpdater;
use render_graph::processor::{GraphShaderProcessor, NodeUpdaters, ParamSource, ShaderKind, UpdateShader, UpdateStep, node_errors, RenderOutcome};

fn entry(id: u64, template: NodeType, inputs: &[(&str, u64)]) -> NodeEntry {
    NodeEntry {
        id: NodeId { key: id },
        template,
        inputs: inputs
            .iter()
            .map(|(name, key)| InputEntry {
                name: name.to_string(),
                id: InputId { key: *key },
                typ: ConnectionType::Texture2D,
            })
            .collect(),
    }
}

fn n(key: u64) -> NodeId {
    NodeId { key }
}

fn expression() -> NodeType {
    NodeType::Expression { inputs: None }
}

/// Expression 1 feeds expression 2, which feeds the shared output 3.
fn chain() -> GraphModel {
    GraphModel {
        nodes: vec![
            entry(1, expression(), &[("pixels", 10)]),
            entry(2, expression(), &[("pixels", 20)]),
            entry(3, NodeType::SharedOut, &[("texture", 30)]),
        ],
        outputs: vec![
            OutputEntry { id: OutputId { key: 100 }, node: n(1), typ: ConnectionType::Texture2D },
            OutputEntry { id: OutputId { key: 200 }, node: n(2), typ: ConnectionType::Texture2D },
        ],
        connections: vec![(InputId { key: 20 }, OutputId { key: 100 }), (InputId { key: 30 }, OutputId { key: 200 })],
    }
}

#[test]
fn events_from_graph_create_then_connect() {
    let g = chain();
    let events = GraphChangeEvent::vec_from_graph(&g);
    assert_eq!(
        events,
        vec![
            GraphChangeEvent::CreatedNode(n(1)),
            GraphChangeEvent::CreatedNode(n(2)),
            GraphChangeEvent::CreatedNode(n(3)),
            GraphChangeEvent::Connected { output_id: OutputId { key: 100 }, input_id: InputId { key: 20 } },
            GraphChangeEvent::Connected { output_id: OutputId { key: 200 }, input_id: InputId { key: 30 } },
        ]
    );
}

#[test]
fn from_response_keeps_structural_changes_only() {
    let o = OutputId { key: 7 };
    let i = InputId { key: 8 };
    assert_eq!(
        GraphChangeEvent::from_response(&NodeResponse::ConnectEventEnded { output: o, input: i }),
        Some(GraphChangeEvent::Connected { output_id: o, input_id: i })
    );
    assert_eq!(
        GraphChangeEvent::from_response(&NodeResponse::DisconnectEvent { output: o, input: i }),
        Some(GraphChangeEvent::Disconnected { output_id: o, input_id: i })
    );
    assert_eq!(
        GraphChangeEvent::from_response(&NodeResponse::CreatedNode(n(4))),
        Some(GraphChangeEvent::CreatedNode(n(4)))
    );
    assert_eq!(
        GraphChangeEvent::from_response(&NodeResponse::DeleteNodeFull { node_id: n(4) }),
        Some(GraphChangeEvent::DestroyedNode(n(4)))
    );
    assert_eq!(
        GraphChangeEvent::from_response(&NodeResponse::ConnectEventStarted(n(4), AnyParameterId::Input(i))),
        None
    );
    assert_eq!(GraphChangeEvent::from_response(&NodeResponse::Other), None);
}

#[test]
fn replaying_a_graph_keeps_the_nodes_whose_output_feeds_nothing() {
    let g = chain();
    let mut p: GraphShaderProcessor<()> = GraphShaderProcessor::new();
    p.apply_events_from_graph(&g, &|| ());
    assert_eq!(p.terminating_nodes, vec![n(3)]);
}

#[test]
fn replay_keeps_every_unconnected_node() {
    let mut g = chain();
    g.connections.pop();
    let mut p: GraphShaderProcessor<()> = GraphShaderProcessor::new();
    p.apply_events_from_graph(&g, &|| ());
    assert_eq!(p.terminating_nodes, vec![n(2), n(3)]);
}

#[test]
fn replay_gives_updaters_to_nodes_with_a_shader() {
    let g = chain();
    let mut p: GraphShaderProcessor<u32> = GraphShaderProcessor::new();
    p.apply_events_from_graph(&g, &|| 7u32);
    let keys: Vec<NodeId> = p.updater.updaters.iter().map(|(k, _)| *k).collect();
    assert_eq!(keys, vec![n(1), n(2)]);
    for (_, u) in &p.updater.updaters {
        match u {
            UpdateShader::Expression(e) => assert!(e.frag_source.is_none()),
            _ => panic!("an expression node gets an expression updater"),
        }
    }
}

#[test]
fn connecting_and_disconnecting_moves_the_chain_end() {
    let g = chain();
    let mut p: GraphShaderProcessor<()> = GraphShaderProcessor::new();
    p.add_dangling_output(n(2));
    p.add_dangling_output(n(2));
    assert_eq!(p.terminating_nodes, vec![n(2)]);
    p.graph_event(
        &g,
        GraphChangeEvent::Connected { output_id: OutputId { key: 200 }, input_id: InputId { key: 30 } },
        &|| (),
    );
    assert!(p.terminating_nodes.is_empty());
    p.graph_event(
        &g,
        GraphChangeEvent::Disconnected { output_id: OutputId { key: 200 }, input_id: InputId { key: 30 } },
        &|| (),
    );
    assert_eq!(p.terminating_nodes, vec![n(2)]);
    p.graph_event(&g, GraphChangeEvent::DestroyedNode(n(2)), &|| ());
    assert!(p.terminating_nodes.is_empty());
}

#[test]
fn disconnecting_an_unknown_output_changes_nothing() {
    let g = chain();
    let mut p: GraphShaderProcessor<()> = GraphShaderProcessor::new();
    p.add_dangling_output(n(3));
    p.graph_event(
        &g,
        GraphChangeEvent::Disconnected { output_id: OutputId { key: 999 }, input_id: InputId { key: 30 } },
        &|| (),
    );
    assert_eq!(p.terminating_nodes, vec![n(3)]);
}

#[test]
fn destroying_a_node_drops_its_updater() {
    let g = chain();
    let mut u: NodeUpdaters<()> = NodeUpdaters::new();
    u.graph_event(&g, GraphChangeEvent::CreatedNode(n(1)), &|| ());
    u.graph_event(&g, GraphChangeEvent::CreatedNode(n(3)), &|| ());
    assert_eq!(u.updaters.len(), 1);
    u.graph_event(&g, GraphChangeEvent::DestroyedNode(n(1)), &|| ());
    assert!(u.updaters.is_empty());
}

#[test]
fn render_plans_follow_the_chain_ends() {
    let g = chain();
    let mut p: GraphShaderProcessor<()> = GraphShaderProcessor::new();
    p.apply_events_from_graph(&g, &|| ());
    p.add_dangling_output(n(1));
    let plans = p.render_plans(&g);
    assert_eq!(plans, vec![(n(3), Some(vec![n(1), n(2), n(3)])), (n(1), Some(vec![n(1)]))]);
}

#[test]
fn updater_kind_follows_the_node_kind() {
    assert!(matches!(UpdateShader::new(&NodeType::ObjRender, 5u8), Some(UpdateShader::Obj(5))));
    assert!(UpdateShader::new(&NodeType::SharedOut, 5u8).is_none());
    assert!(matches!(
        UpdateShader::new(&NodeType::Expression { inputs: None }, 5u8),
        Some(UpdateShader::Expression(ref e)) if e.frag_source.is_none()
    ));
}

#[test]
fn chain_ends_never_repeat() {
    let g = chain();
    let mut p: GraphShaderProcessor<()> = GraphShaderProcessor::new();
    p.apply_events_from_graph(&g, &|| ());
    p.apply_events_from_graph(&g, &|| ());
    let disconnect = GraphChangeEvent::Disconnected { output_id: OutputId { key: 200 }, input_id: InputId { key: 30 } };
    p.graph_event(&g, disconnect, &|| ());
    p.graph_event(&g, disconnect, &|| ());
    p.add_dangling_output(n(3));
    assert_eq!(p.terminating_nodes, vec![n(3), n(2)]);
}

#[test]
fn update_steps_follow_the_parameters() {
    let inputs = vec![
        ParamSource::Other,
        ParamSource::Text("pixel.r".to_string()),
        ParamSource::Path(Some("/m/cube.obj".to_string())),
        ParamSource::Text("ignored".to_string()),
    ];
    let expr: UpdateShader<()> = UpdateShader::Expression(GlExpressionUpdater { frag_source: None });
    match expr.update_step(&expression(), Some(ShaderKind::Expression), &inputs) {
        UpdateStep::RebuildExpression(t) => assert_eq!(t, "pixel.r"),
        other => panic!("unexpected step {other:?}"),
    }
    assert!(matches!(expr.update_step(&NodeType::SharedOut, Some(ShaderKind::Expression), &inputs), UpdateStep::Nothing));
    let obj: UpdateShader<()> = UpdateShader::Obj(());
    match obj.update_step(&NodeType::ObjRender, Some(ShaderKind::Obj), &inputs) {
        UpdateStep::LoadObj(p) => assert_eq!(p, "/m/cube.obj"),
        other => panic!("unexpected step {other:?}"),
    }
    let unset = vec![ParamSource::Path(None), ParamSource::Path(Some("/later.obj".to_string()))];
    assert!(matches!(obj.update_step(&NodeType::ObjRender, Some(ShaderKind::Obj), &unset), UpdateStep::Nothing));
    assert!(matches!(expr.update_step(&expression(), Some(ShaderKind::Expression), &unset), UpdateStep::Nothing));
    // A shader of another kind, or none, takes no step.
    assert!(matches!(obj.update_step(&NodeType::ObjRender, Some(ShaderKind::Isf), &inputs), UpdateStep::Nothing));
    assert!(matches!(expr.update_step(&expression(), None, &inputs), UpdateStep::Nothing));
}

#[test]
fn render_errors_are_shown_per_node() {
    let g = chain();
    let outcomes = vec![
        (n(2), RenderOutcome::Failed("first".to_string())),
        (n(1), RenderOutcome::Rendered),
        (n(2), RenderOutcome::Rendered),
        (n(2), RenderOutcome::Failed("second".to_string())),
        (n(9), RenderOutcome::Failed("not in the graph".to_string())),
    ];
    assert_eq!(
        node_errors(&g, &outcomes),
        vec![(n(1), None), (n(2), Some("second".to_string())), (n(3), None)]
    );
}

#[test]
fn a_model_node_gets_the_loader_made_for_it() {
    let g = GraphModel {
        nodes: vec![entry(5, NodeType::ObjRender, &[])],
        outputs: vec![],
        connections: vec![],
    };
    let mut u: NodeUpdaters<u32> = NodeUpdaters::new();
    u.graph_event(&g, GraphChangeEvent::CreatedNode(n(5)), &|| 42u32);
    assert!(matches!(u.updaters.as_slice(), [(k, UpdateShader::Obj(42))] if *k == n(5)));
}
