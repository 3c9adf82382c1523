//! The render graph wiring that the rendering plugins ask for: the nodes they
//! add, and the node and slot edges between them and the engine's own nodes.
use vstd::prelude::*;

verus! {

/// A node of the render graph.
#[derive(Clone, Copy, Debug, PartialEq, Eq, Hash)]
pub enum GraphNode {
    /// A node that a plugin of this library adds, by name.
    Own(&'static str),
    /// The renderer's node that everything rendered depends on.
    RenderDependencies,
    /// The renderer's HDR color texture node.
    Hdr,
    /// The renderer's multisampled HDR color texture node.
    HdrMsaa,
    /// The renderer's multisampled depth texture node.
    MsaaDepth,
    /// The debug line drawing node.
    DebugLine,
    /// The graph's input node.
    Input,
}

/// A slot of a render graph node.
#[derive(Clone, Copy, Debug, PartialEq, Eq, Hash)]
pub enum GraphSlot {
    /// A slot of a node of this library, by name.
    Own(&'static str),
    /// The texture output of a texture node.
    Texture,
    /// The surface texture of the graph input.
    SurfaceTexture,
    /// The camera of the graph input.
    Camera,
}

/// One change to the render graph.
#[derive(Clone, Copy, Debug, PartialEq, Eq, Hash)]
pub enum GraphOp {
    /// Adds the node of this name.
    AddNode(&'static str),
    /// The second node runs after the first.
    NodeEdge(GraphNode, GraphNode),
    /// The output slot of one node feeds the input slot of another.
    SlotEdge(GraphNode, GraphSlot, GraphNode, GraphSlot),
}

/// The nodes of this library that an operation refers to.
pub open spec fn own_nodes_used(op: GraphOp) -> Set<&'static str> {
    match op {
        GraphOp::AddNode(_) => Set::empty(),
        GraphOp::NodeEdge(a, b) => own_node(a).union(own_node(b)),
        GraphOp::SlotEdge(a, _, b, _) => own_node(a).union(own_node(b)),
    }
}

/// The node of this library that `n` names, if it names one.
pub open spec fn own_node(n: GraphNode) -> Set<&'static str> {
    match n {
        GraphNode::Own(name) => set![name],
        _ => Set::empty(),
    }
}

/// The nodes added by the first `k` operations.
pub open spec fn added_before(ops: Seq<GraphOp>, k: int) -> Set<&'static str> {
    Set::new(|name: &'static str| exists|j: int| 0 <= j < k && ops[j] == GraphOp::AddNode(name))
}

/// Every edge connects only nodes of the engine and nodes of this library
/// added by an earlier operation.
pub open spec fn adds_before_use(ops: Seq<GraphOp>) -> bool {
    forall|k: int| 0 <= k < ops.len() ==> #[trigger] own_nodes_used(ops[k]).subset_of(added_before(ops, k))
}

} // verus!
