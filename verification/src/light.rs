//! Lights: the directional lights packed for the GPU, the shadow map passes
//! of the light node, and its place in the render graph.
use vstd::prelude::*;
use crate::render_graph::{GraphNode, GraphOp, adds_before_use, added_before, own_nodes_used};

verus! {

/// The number of directional light slots in the packed lights.
pub const MAX_DIRECTIONAL_LIGHTS: u32 = 8;

/// The width and height of each directional light's shadow map.
pub const DIRECTIONAL_LIGHT_SHADOW_MAP_SIZE: u32 = 4096;

/// The name of the light node in the render graph.
pub const LIGHT_NODE: &'static str = "light_node";

/// The lights after one more directional light is pushed: it is kept only
/// while one more still leaves a slot free.
pub open spec fn pushed<L>(lights: Seq<L>, light: L) -> Seq<L> {
    if lights.len() + 1 < MAX_DIRECTIONAL_LIGHTS {
        lights.push(light)
    } else {
        lights
    }
}

/// The lights after each of `lights` is pushed in turn onto `start`.
pub open spec fn pushed_all<L>(start: Seq<L>, lights: Seq<L>) -> Seq<L>
    decreases lights.len(),
{
    if lights.len() == 0 {
        start
    } else {
        pushed(pushed_all(start, lights.drop_last()), lights.last())
    }
}

/// The directional lights to be packed for the GPU, in the order pushed.
pub struct RawLights<L> {
    directional_lights: Vec<L>,
}

impl<L> View for RawLights<L> {
    type V = Seq<L>;

    closed spec fn view(&self) -> Seq<L> {
        self.directional_lights@
    }
}

impl<L> RawLights<L> {
    /// Fewer lights than slots.
    pub closed spec fn wf(&self) -> bool {
        self.directional_lights@.len() < MAX_DIRECTIONAL_LIGHTS
    }

    /// No lights.
    pub fn new() -> (r: Self)
        ensures
            r.wf(),
            r@ == Seq::<L>::empty(),
    {
        RawLights { directional_lights: Vec::new() }
    }

    /// The number of directional lights held.
    pub fn directional_light_count(&self) -> (n: u32)
        requires
            self.wf(),
        ensures
            n == self@.len(),
    {
        self.directional_lights.len() as u32
    }

    /// The directional lights held, in the order pushed.
    pub fn directional_lights(&self) -> (r: &Vec<L>)
        ensures
            r@ == self@,
    {
        &self.directional_lights
    }

    /// Adds a directional light while one more still leaves a slot free;
    /// otherwise the light is dropped.
    pub fn push_directional_light(&mut self, directional_light: L)
        requires
            old(self).wf(),
        ensures
            final(self).wf(),
            final(self)@ == pushed(old(self)@, directional_light),
    {
        if (self.directional_lights.len() as u32) + 1 < MAX_DIRECTIONAL_LIGHTS {
            self.directional_lights.push(directional_light);
        }
    }
}

/// Pushing lights one by one onto no lights keeps the first of them, in
/// order, up to one fewer than there are slots, and drops the rest.
pub proof fn lemma_pushed_all_keeps_first<L>(lights: Seq<L>)
    ensures
        pushed_all(Seq::<L>::empty(), lights) == lights.take(
            if lights.len() < MAX_DIRECTIONAL_LIGHTS - 1 { lights.len() as int } else { MAX_DIRECTIONAL_LIGHTS - 1 },
        ),
    decreases lights.len(),
{
    if lights.len() > 0 {
        let init = lights.drop_last();
        lemma_pushed_all_keeps_first(init);
        if lights.len() < MAX_DIRECTIONAL_LIGHTS {
            assert(init.take(init.len() as int).push(lights.last()) =~= lights.take(lights.len() as int));
        } else {
            assert(init.take(MAX_DIRECTIONAL_LIGHTS - 1) =~= lights.take(MAX_DIRECTIONAL_LIGHTS - 1));
        }
    }
}

/// What the light node finds for one mesh: whether its buffers are on the
/// GPU, whether they have positions, and how many indices the mesh has.
#[derive(Clone, Copy, Debug, PartialEq, Eq)]
pub struct ShadowMesh {
    pub has_buffers: bool,
    pub has_position: bool,
    pub index_count: u32,
}

/// One draw into a shadow map: the mesh, by its place among the meshes, and
/// the number of its indices.
#[derive(Clone, Copy, Debug, PartialEq, Eq)]
pub struct ShadowDraw {
    pub mesh: usize,
    pub index_count: u32,
}

/// The shadow map pass of one directional light: the layer of the shadow
/// map array it renders into, and its draws in order.
#[derive(Clone, Debug)]
pub struct ShadowPass {
    pub layer: u32,
    pub draws: Vec<ShadowDraw>,
}

/// The draws of the first `n` meshes: those whose buffers are on the GPU
/// with positions, in order.
pub open spec fn spec_shadow_draws(meshes: Seq<ShadowMesh>, n: int) -> Seq<ShadowDraw>
    decreases n,
{
    if n <= 0 {
        Seq::empty()
    } else if meshes[n - 1].has_buffers && meshes[n - 1].has_position {
        spec_shadow_draws(meshes, n - 1).push(ShadowDraw { mesh: (n - 1) as usize, index_count: meshes[n - 1].index_count })
    } else {
        spec_shadow_draws(meshes, n - 1)
    }
}

/// The number of directional lights that get a shadow map: at most one per
/// slot.
pub open spec fn shadowed_lights(lights: int) -> int {
    if lights < MAX_DIRECTIONAL_LIGHTS {
        lights
    } else {
        MAX_DIRECTIONAL_LIGHTS as int
    }
}

/// The shadow map passes of a frame with `lights` directional lights: one
/// per light that gets a shadow map, into its own layer, each drawing the
/// same meshes.
pub fn shadow_passes(lights: usize, meshes: &Vec<ShadowMesh>) -> (passes: Vec<ShadowPass>)
    ensures
        passes@.len() == shadowed_lights(lights as int),
        forall|i: int| 0 <= i < passes@.len() ==> (#[trigger] passes@[i]).layer == i,
        forall|i: int| 0 <= i < passes@.len() ==> (#[trigger] passes@[i]).draws@
            == spec_shadow_draws(meshes@, meshes@.len() as int),
{
    let mut draws: Vec<ShadowDraw> = Vec::new();
    let mut j: usize = 0;
    while j < meshes.len()
        invariant
            j <= meshes@.len(),
            draws@ == spec_shadow_draws(meshes@, j as int),
        decreases meshes@.len() - j,
    {
        let m = meshes[j];
        if m.has_buffers && m.has_position {
            draws.push(ShadowDraw { mesh: j, index_count: m.index_count });
        }
        j = j + 1;
    }
    let count: u32 = if lights < MAX_DIRECTIONAL_LIGHTS as usize { lights as u32 } else { MAX_DIRECTIONAL_LIGHTS };
    let mut passes: Vec<ShadowPass> = Vec::new();
    let mut i: u32 = 0;
    while i < count
        invariant
            i <= count,
            count == shadowed_lights(lights as int),
            passes@.len() == i,
            forall|k: int| 0 <= k < i ==> (#[trigger] passes@[k]).layer == k,
            forall|k: int| 0 <= k < i ==> (#[trigger] passes@[k]).draws@ == draws@,
        decreases count - i,
    {
        let d = draws.clone();
        passes.push(ShadowPass { layer: i, draws: d });
        i = i + 1;
    }
    passes
}

/// Sets up directional lights and their shadow maps.
#[derive(Clone, Copy, Debug, Default)]
pub struct LightPlugin;

/// The render graph wiring of the light plugin: the light node, run before
/// everything that renders.
pub open spec fn spec_light_graph() -> Seq<GraphOp> {
    seq![
        GraphOp::AddNode(LIGHT_NODE),
        GraphOp::NodeEdge(GraphNode::Own(LIGHT_NODE), GraphNode::RenderDependencies),
    ]
}

impl LightPlugin {
    /// The changes the plugin makes to the render graph, in order.
    pub fn graph_ops(&self) -> (ops: Vec<GraphOp>)
        ensures
            ops@ == spec_light_graph(),
            adds_before_use(ops@),
    {
        let ops = vec![
            GraphOp::AddNode(LIGHT_NODE),
            GraphOp::NodeEdge(GraphNode::Own(LIGHT_NODE), GraphNode::RenderDependencies),
        ];
        proof {
            assert(ops@ =~= spec_light_graph());
            assert(added_before(ops@, 1).contains(LIGHT_NODE));
            assert(own_nodes_used(ops@[1]) =~= set![LIGHT_NODE]);
        }
        ops
    }
}

} // verus!
