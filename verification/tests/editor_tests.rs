use render_graph::connections::ConnectionType;
use render_graph::editor::{
    changes_from_responses, leaf_requests, plan_add_node, tree_open_state, FilterState, GraphUiAction, GraphUiResult,
    GraphUiState, LeafIndex, NodeSelectionActor, RenderRequest, ViewState,
};
use render_graph::events::{AnyParameterId, GraphChangeEvent, NodeResponse};
use render_graph::graph::{GraphModel, InputEntry, InputId, NodeEntry, NodeId, OutputEntry, OutputId};
use render_graph::node_types::{AllNodeTypes, NodeType};

fn n(key: u64) -> NodeId {
    NodeId { key }
}

fn graph_with_new_node() -> GraphModel {
    GraphModel {
        nodes: vec![
            NodeEntry { id: n(1), template: NodeType::Expression { inputs: None }, inputs: vec![] },
            NodeEntry {
                id: n(2),
                template: NodeType::SharedOut,
                inputs: vec![
                    InputEntry { name: "name".to_string(), id: InputId { key: 20 }, typ: ConnectionType::NoConnection },
                    InputEntry { name: "texture".to_string(), id: InputId { key: 21 }, typ: ConnectionType::Texture2D },
                ],
            },
        ],
        outputs: vec![OutputEntry { id: OutputId { key: 100 }, node: n(1), typ: ConnectionType::Texture2D }],
        connections: vec![],
    }
}

#[test]
fn view_state_toggles() {
    let mut v = ViewState::default();
    assert_eq!(v, ViewState::Graph);
    v.toggle();
    assert_eq!(v, ViewState::Output);
    v.toggle();
    assert_eq!(v, ViewState::Graph);
}

#[test]
fn keys_map_to_actions_in_order() {
    assert_eq!(GraphUiAction::from_keys(true, true, true, true), Some(GraphUiAction::Home));
    assert_eq!(GraphUiAction::from_keys(false, true, true, true), Some(GraphUiAction::ToggleAddNodeModal));
    assert_eq!(GraphUiAction::from_keys(false, false, true, true), Some(GraphUiAction::Escape));
    assert_eq!(GraphUiAction::from_keys(false, false, false, true), Some(GraphUiAction::ToggleViewState));
    assert_eq!(GraphUiAction::from_keys(false, false, false, false), None);
}

#[test]
fn tree_opens_after_a_non_empty_search() {
    assert_eq!(tree_open_state(true, &"bl".to_string()), Some(true));
    assert_eq!(tree_open_state(true, &String::new()), None);
    assert_eq!(tree_open_state(false, &"bl".to_string()), None);
}

#[test]
fn union_concatenates_results() {
    let a = GraphUiResult {
        graph_changes: vec![GraphChangeEvent::CreatedNode(n(1))],
        render_requests: vec![RenderRequest::Leaf(LeafIndex { key: 1 })],
    };
    let b = GraphUiResult {
        graph_changes: vec![GraphChangeEvent::DestroyedNode(n(2))],
        render_requests: vec![RenderRequest::Leaf(LeafIndex { key: 2 })],
    };
    let u = a.union(b);
    assert_eq!(u.graph_changes, vec![GraphChangeEvent::CreatedNode(n(1)), GraphChangeEvent::DestroyedNode(n(2))]);
    assert_eq!(leaf_requests(&u.render_requests), vec![LeafIndex { key: 1 }, LeafIndex { key: 2 }]);
    let e = GraphUiResult::default().union(GraphUiResult::default());
    assert!(e.graph_changes.is_empty() && e.render_requests.is_empty());
}

#[test]
fn changes_from_responses_skips_the_rest() {
    let r = vec![
        NodeResponse::Other,
        NodeResponse::CreatedNode(n(3)),
        NodeResponse::ConnectEventStarted(n(3), AnyParameterId::Output(OutputId { key: 1 })),
        NodeResponse::DeleteNodeFull { node_id: n(4) },
    ];
    assert_eq!(
        changes_from_responses(&r),
        vec![GraphChangeEvent::CreatedNode(n(3)), GraphChangeEvent::DestroyedNode(n(4))]
    );
}

#[test]
fn picker_toggles_and_closes() {
    let mut s: GraphUiState<(i32, i32)> = GraphUiState::default();
    s.toggle_add_node_modal((3, 4));
    assert!(matches!(s.node_selection_actor, Some(NodeSelectionActor::Mouse((3, 4)))));
    assert_eq!(s.node_selection_actor.unwrap().pos(), (3, 4));
    assert_eq!(s.preview_connection(), None);
    s.close_selector(false, true, None);
    assert!(s.node_selection_actor.is_some());
    s.close_selector(false, true, Some(GraphUiAction::Escape));
    assert!(s.node_selection_actor.is_none());
    s.toggle_add_node_modal((0, 0));
    s.close_selector(true, true, None);
    assert!(s.node_selection_actor.is_none());
    s.toggle_add_node_modal((0, 0));
    s.close_selector(false, false, None);
    assert!(s.node_selection_actor.is_none());
    s.toggle_add_node_modal((0, 0));
    s.toggle_add_node_modal((0, 0));
    assert!(s.node_selection_actor.is_none());
}

#[test]
fn dropping_a_dragged_connection_opens_the_picker() {
    let param = AnyParameterId::Output(OutputId { key: 100 });
    let mut s: GraphUiState<(i32, i32)> = GraphUiState::default();
    s.track_connection(&vec![NodeResponse::ConnectEventStarted(n(1), param)], true, (0, 0));
    assert_eq!(s.last_connection_in_progress, Some((n(1), param)));
    s.track_connection(&vec![], true, (1, 1));
    assert!(s.node_selection_actor.is_none());
    s.track_connection(&vec![], false, (5, 6));
    assert!(s.last_connection_in_progress.is_none());
    let actor = s.node_selection_actor.unwrap();
    assert_eq!(actor.pos(), (5, 6));
    assert_eq!(actor.connection(), Some((n(1), param)));
    assert_eq!(s.preview_connection(), Some((n(1), param)));
}

#[test]
fn a_finished_connection_is_forgotten() {
    let param = AnyParameterId::Output(OutputId { key: 100 });
    let mut s: GraphUiState<(i32, i32)> = GraphUiState::default();
    s.track_connection(&vec![NodeResponse::ConnectEventStarted(n(1), param)], true, (0, 0));
    s.track_connection(
        &vec![NodeResponse::ConnectEventEnded { output: OutputId { key: 100 }, input: InputId { key: 21 } }],
        false,
        (0, 0),
    );
    assert!(s.last_connection_in_progress.is_none());
    assert!(s.node_selection_actor.is_none());
}

#[test]
fn a_node_added_from_a_dragged_output_is_connected() {
    let g = graph_with_new_node();
    let from = Some((n(1), AnyParameterId::Output(OutputId { key: 100 })));
    let (made, changes) = plan_add_node(&g, n(2), from);
    assert_eq!(made, Some((OutputId { key: 100 }, InputId { key: 21 })));
    assert_eq!(
        changes,
        vec![
            GraphChangeEvent::Connected { output_id: OutputId { key: 100 }, input_id: InputId { key: 21 } },
            GraphChangeEvent::CreatedNode(n(2)),
        ]
    );
    let (made, changes) = plan_add_node(&g, n(2), None);
    assert_eq!(made, None);
    assert_eq!(changes, vec![GraphChangeEvent::CreatedNode(n(2))]);
    let (made, _) = plan_add_node(&g, n(1), from);
    assert_eq!(made, None);
    let (made, _) = plan_add_node(&g, n(2), Some((n(2), AnyParameterId::Input(InputId { key: 21 }))));
    assert_eq!(made, None);
}

#[test]
fn node_picker_filter() {
    let kinds = AllNodeTypes.all_kinds();
    let names: Vec<&str> = kinds.iter().map(|k| k.get_name()).collect();
    assert_eq!(names, vec!["ObjRender", "SpoutOut", "Expression"]);
    let mut f = FilterState::default();
    assert!(kinds.iter().all(|k| f.filter_item(k)));
    f.text = "EXPR".to_string();
    let kept: Vec<bool> = kinds.iter().map(|k| f.filter_item(k)).collect();
    assert_eq!(kept, vec![false, false, true]);
    f.text = String::new();
    f.image_inputs = true;
    let kept: Vec<bool> = kinds.iter().map(|k| f.filter_item(k)).collect();
    assert_eq!(kept, vec![false, true, true]);
    f.image_inputs = false;
    f.no_image_inputs = true;
    let kept: Vec<bool> = kinds.iter().map(|k| f.filter_item(k)).collect();
    assert_eq!(kept, vec![true, false, false]);
}
