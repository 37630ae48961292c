use render_graph::connections::ConnectionType;
use render_graph::graph::{contains_node, GraphModel, InputEntry, InputId, NodeEntry, NodeId, OutputEntry, OutputId};
use render_graph::events::{AnyParameterId, GraphChangeEvent};
use render_graph::node_types::NodeType;

fn node(id: u64, inputs: &[(&str, u64, ConnectionType)]) -> NodeEntry {
    NodeEntry {
        id: NodeId { key: id },
        template: NodeType::Expression { inputs: None },
        inputs: inputs
            .iter()
            .map(|(name, key, typ)| InputEntry { name: name.to_string(), id: InputId { key: *key }, typ: *typ })
            .collect(),
    }
}

fn output(id: u64, node: u64) -> OutputEntry {
    OutputEntry { id: OutputId { key: id }, node: NodeId { key: node }, typ: ConnectionType::Texture2D }
}

fn n(key: u64) -> NodeId {
    NodeId { key }
}

/// A feeds B, B feeds C.
fn chain() -> GraphModel {
    GraphModel {
        nodes: vec![
            node(1, &[("pixels", 10, ConnectionType::Texture2D)]),
            node(2, &[("pixels", 20, ConnectionType::Texture2D)]),
            node(3, &[("texture", 30, ConnectionType::Texture2D)]),
        ],
        outputs: vec![output(100, 1), output(200, 2), output(300, 3)],
        connections: vec![(InputId { key: 20 }, OutputId { key: 100 }), (InputId { key: 30 }, OutputId { key: 200 })],
    }
}

/// A feeds B and D; B feeds D.
fn diamond() -> GraphModel {
    GraphModel {
        nodes: vec![
            node(4, &[("a", 40, ConnectionType::Texture2D), ("b", 41, ConnectionType::Texture2D)]),
            node(1, &[]),
            node(2, &[("pixels", 20, ConnectionType::Texture2D)]),
        ],
        outputs: vec![output(100, 1), output(200, 2), output(400, 4)],
        connections: vec![
            (InputId { key: 40 }, OutputId { key: 200 }),
            (InputId { key: 41 }, OutputId { key: 100 }),
            (InputId { key: 20 }, OutputId { key: 100 }),
        ],
    }
}

/// A and B feed each other; C is fed by B.
fn cycle() -> GraphModel {
    GraphModel {
        nodes: vec![
            node(1, &[("pixels", 10, ConnectionType::Texture2D)]),
            node(2, &[("pixels", 20, ConnectionType::Texture2D)]),
            node(3, &[("texture", 30, ConnectionType::Texture2D)]),
        ],
        outputs: vec![output(100, 1), output(200, 2)],
        connections: vec![
            (InputId { key: 10 }, OutputId { key: 200 }),
            (InputId { key: 20 }, OutputId { key: 100 }),
            (InputId { key: 30 }, OutputId { key: 200 }),
        ],
    }
}

#[test]
fn evaluation_order_of_a_chain_puts_feeders_first() {
    let g = chain();
    assert_eq!(g.evaluation_order(n(3)), Some(vec![n(1), n(2), n(3)]));
    assert_eq!(g.evaluation_order(n(2)), Some(vec![n(1), n(2)]));
    assert_eq!(g.evaluation_order(n(1)), Some(vec![n(1)]));
}

#[test]
fn evaluation_order_visits_a_shared_feeder_once() {
    let g = diamond();
    // D's first input is fed by B, which is fed by A; its second input by A again.
    assert_eq!(g.evaluation_order(n(4)), Some(vec![n(1), n(2), n(4)]));
}

#[test]
fn evaluation_order_is_none_when_a_cycle_feeds_the_root() {
    let g = cycle();
    assert_eq!(g.evaluation_order(n(1)), None);
    assert_eq!(g.evaluation_order(n(3)), None);
}

#[test]
fn evaluation_order_laws_hold_on_a_diamond() {
    let g = diamond();
    let order = g.evaluation_order(n(4)).unwrap();
    // The root comes last.
    assert_eq!(*order.last().unwrap(), n(4));
    // No node twice.
    for i in 0..order.len() {
        for j in i + 1..order.len() {
            assert_ne!(order[i], order[j]);
        }
    }
    // Every node that feeds a listed node comes before it.
    for (i, x) in order.iter().enumerate() {
        let entry = g.nodes.iter().find(|e| e.id == *x).unwrap();
        for input in &entry.inputs {
            if let Some(src) = g.source(input.id) {
                let at = order.iter().position(|y| *y == src).unwrap();
                assert!(at < i);
            }
        }
    }
}

#[test]
fn lookups_find_the_first_match() {
    let g = chain();
    assert_eq!(g.find_node(n(2)), Some(1));
    assert_eq!(g.find_node(n(7)), None);
    assert_eq!(g.find_output(OutputId { key: 300 }), Some(2));
    assert_eq!(g.find_output(OutputId { key: 5 }), None);
    assert_eq!(g.connection(InputId { key: 30 }), Some(OutputId { key: 200 }));
    assert_eq!(g.connection(InputId { key: 10 }), None);
    assert_eq!(g.try_get_output(OutputId { key: 200 }).map(|o| o.node), Some(n(2)));
    assert!(g.try_get_output(OutputId { key: 201 }).is_none());
    assert_eq!(g.source(InputId { key: 20 }), Some(n(1)));
    assert_eq!(g.source(InputId { key: 10 }), None);
}

#[test]
fn source_of_a_connection_to_a_missing_output_is_none() {
    let mut g = chain();
    g.connections.push((InputId { key: 10 }, OutputId { key: 999 }));
    assert_eq!(g.source(InputId { key: 10 }), None);
}

#[test]
fn contains_node_checks_membership() {
    let v = vec![n(1), n(5)];
    assert!(contains_node(&v, n(5)));
    assert!(!contains_node(&v, n(2)));
    assert!(!contains_node(&Vec::new(), n(1)));
}

#[test]
fn evaluation_order_exists_where_the_feeding_part_has_no_cycle() {
    // Nodes 1 and 2 feed each other; node 4 (fed by 5) is apart from that cycle.
    let mut g = cycle();
    g.nodes.push(node(4, &[("pixels", 40, ConnectionType::Texture2D)]));
    g.nodes.push(node(5, &[]));
    g.outputs.push(output(500, 5));
    g.connections.push((InputId { key: 40 }, OutputId { key: 500 }));
    assert_eq!(g.evaluation_order(n(4)), Some(vec![n(5), n(4)]));
    assert_eq!(g.evaluation_order(n(1)), None);
}

#[test]
fn picked_node_is_added_and_connected() {
    let mut g = GraphModel {
        nodes: vec![NodeEntry { id: n(1), template: NodeType::Expression { inputs: None }, inputs: vec![] }],
        outputs: vec![output(100, 1)],
        connections: vec![],
    };
    let from = Some((n(1), AnyParameterId::Output(OutputId { key: 100 })));
    let (id, next, changes) = g.add_picked_node(NodeType::SharedOut, 1000, from);
    assert_eq!(id, n(1000));
    assert_eq!(next, 1003);
    assert_eq!(
        changes,
        vec![
            GraphChangeEvent::Connected { output_id: OutputId { key: 100 }, input_id: InputId { key: 1002 } },
            GraphChangeEvent::CreatedNode(n(1000)),
        ]
    );
    let added = g.nodes.last().unwrap();
    let keys: Vec<u64> = added.inputs.iter().map(|i| i.id.key).collect();
    assert_eq!(keys, vec![1001, 1002]);
    assert_eq!(added.inputs[0].name, "name");
    assert_eq!(added.inputs[1].typ, ConnectionType::Texture2D);
    assert_eq!(g.outputs.len(), 1);
    assert_eq!(g.connection(InputId { key: 1002 }), Some(OutputId { key: 100 }));

    let (id2, next2, changes2) = g.add_picked_node(NodeType::Expression { inputs: None }, next, None);
    assert_eq!(id2, n(1003));
    assert_eq!(next2, 1007);
    assert_eq!(changes2, vec![GraphChangeEvent::CreatedNode(n(1003))]);
    assert_eq!(g.outputs.last().map(|o| (o.id.key, o.node)), Some((1006, n(1003))));

    // A new connection to an input replaces the one it had.
    g.add_connection(OutputId { key: 1006 }, InputId { key: 1002 });
    assert_eq!(g.connections.len(), 1);
    assert_eq!(g.source(InputId { key: 1002 }), Some(n(1003)));
}

#[test]
fn inputs_take_the_results_of_their_feeders() {
    let g = diamond();
    let results = vec![(n(1), "A"), (n(2), "B"), (n(1), "A again")];
    assert_eq!(
        g.compute_inputs(n(4), &results),
        vec![(InputId { key: 40 }, Some(1)), (InputId { key: 41 }, Some(0))]
    );
    assert_eq!(g.compute_inputs(n(1), &results), vec![]);
    let c = chain();
    assert_eq!(c.compute_inputs(n(1), &results), vec![(InputId { key: 10 }, None)]);
    // Fed by a node that has no result yet.
    assert_eq!(c.compute_inputs(n(3), &vec![(n(1), "A")]), vec![(InputId { key: 30 }, None)]);
}
