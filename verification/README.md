# render_graph

The verified core of a node-graph shader renderer for live visuals: nodes run
ISF shaders, GLSL expressions or model renders, and are wired into a graph
whose end nodes are rendered every frame.

## Layout

- `src/` — the library, checked by Verus:
  - `graph.rs`, `graph_laws.rs`: the graph as plain data and the order in which
    the nodes feeding a node are evaluated, with its laws (each node once,
    feeders first, the root last, and one exists wherever the part of the
    graph feeding the node has no cycle).
  - `graph_edit.rs`: adding a node built from its kind and the connection it
    was picked for, keeping the graph well formed.
  - `processor.rs`: the nodes that end a chain and the per-node updaters, kept
    in step with changes to the graph; replaying a whole graph keeps exactly the
    nodes whose output feeds nothing.
  - `events.rs`, `editor.rs`, `prop_ui.rs`: what the editor reports and decides
    (keys, the node picker, dragged connections, parameter popups).
  - `node_types.rs`, `connections.rs`: node kinds and their inputs and outputs.
  - `isf.rs`, `isf_tree.rs`: ISF shader metadata (through the `isf` crate), the
    GLSL declarations generated for it, hot-reload decisions and the shader tree.
  - `gl_expression.rs`: expression nodes and the fragment shader built for them.
  - `names.rs`, `plugin.rs`, `strings.rs`, `common.rs`: names and small helpers.
- `tests/`: tests of the library on concrete graphs, shaders and inputs.
- `app/`: a command-line front end (file I/O, GLSL parsing, float-valued
  parameters and saved state).
