//! Verified core of a node-graph shader renderer: the graph model and the order
//! in which its nodes are evaluated, the bookkeeping of the graph processor,
//! node templates, ISF shader metadata and the text logic around them.

pub mod common;
pub mod connections;
pub mod graph;
pub mod graph_laws;
pub mod strings;
pub mod names;
pub mod isf;
pub mod node_types;
pub mod events;
pub mod gl_expression;
pub mod processor;
pub mod editor;
pub mod isf_tree;
pub mod plugin;
pub mod prop_ui;
pub mod graph_edit;
