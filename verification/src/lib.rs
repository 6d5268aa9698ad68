//! A static computational-graph runtime.
//!
//! A graph is made of nodes. A node declares named, typed outputs and inputs;
//! an input names the output it reads by that output's qualified name,
//! `<instance>.<port>`. Work goes in three steps:
//!
//! 1. *Declare.* A [`ComputationalNode`] is made and publishes its ports
//!    ([`ComputationalNodeMaker::declare`]); renames it asked for are applied
//!    ([`NodeAttributes::new`]). The result is a [`DeclaredNode`].
//! 2. *Wire.* A [`GraphBuilder`] collects declared nodes under instance names
//!    ([`GraphBuilder::add`]) and wires every input to the one output of that
//!    name and element type ([`GraphBuilder::build`]);
//!    [`builder::graph_from_nodes`] does both for a list of named nodes.
//! 3. *Evaluate.* The [`Graph`] runs its nodes in insertion order, as often
//!    as asked ([`Graph::evaluate`]).
//!
//! The graph owns every output cell, in one block per node, and a cell is
//! addressed by position ([`CellAddr`]): the number of its node and its
//! place in the block. Addresses are fixed when a node is added, so what an
//! input is wired to never moves. While a node runs it reaches the cells
//! through a [`Frame`]: it reads the cells its inputs are wired to, as they
//! stand at that moment, and reads and writes its own.
//!
//! Every failure is a [`GraphError`] that names the port or reference it is
//! about. The general facts about graphs are proved in [`laws`]. A graph can
//! also be built from a JSON description, see [`json`].

pub mod attributes;
pub mod builder;
pub mod error;
pub mod frame;
pub mod graph;
pub mod json;
pub mod laws;
pub mod node;
pub mod port;
pub mod wiring;

pub use attributes::{
    AttributeTransformer, Attributes, InputAttributes, NodeAttributes, OutputAttributes,
};
pub use builder::GraphBuilder;
pub use error::{ErrorKind, Fault, GraphError};
pub use frame::{Frame, FrameView};
pub use graph::Graph;
pub use node::{
    AliasBox, ComputationalNode, ComputationalNodeMaker, DeclaredNode, ErasedNode, InputStruct,
    OutputStruct, UnsafeNode,
};
pub use port::{
    qualified_name, Attribute, CellAddr, Input, InputMaker, Output, Port, PortView, TypeToken,
};
