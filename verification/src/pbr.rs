//! Physically based rendering: the PBR node's batches of mesh instances,
//! the draws it makes of them, and its place in the render graph.
use vstd::prelude::*;
use crate::render_graph::{GraphNode, GraphOp, GraphSlot, adds_before_use, added_before, own_nodes_used};
use crate::post_processing::DEPENDENCIES;
use crate::entries::{keys_distinct, map_of, lemma_map_of_absent, lemma_map_of_entry, lemma_map_of_update};

verus! {

/// The name of the PBR node in the render graph.
pub const PBR_NODE: &'static str = "pbr_node";

/// The PBR node's slot for the HDR texture it renders into.
pub const PBR_RENDER_TARGET: &'static str = "render_target";

/// The PBR node's slot for the multisampled HDR texture.
pub const PBR_MSAA_TEXTURE: &'static str = "msaa_texture";

/// The PBR node's slot for the multisampled depth texture.
pub const PBR_DEPTH: &'static str = "depth";

/// The PBR node's slot for the camera.
pub const PBR_CAMERA: &'static str = "camera";

/// Sets up PBR materials and the PBR node.
#[derive(Clone, Copy, Debug, Default)]
pub struct PbrPlugin;

/// The render graph wiring of the PBR plugin: the PBR node runs after the
/// renderer's dependencies and before post processing and debug lines, and
/// takes the HDR, multisampled HDR and depth textures and the camera.
pub open spec fn spec_pbr_graph() -> Seq<GraphOp> {
    seq![
        GraphOp::AddNode(PBR_NODE),
        GraphOp::NodeEdge(GraphNode::RenderDependencies, GraphNode::Own(PBR_NODE)),
        GraphOp::NodeEdge(GraphNode::Own(PBR_NODE), GraphNode::Own(DEPENDENCIES)),
        GraphOp::NodeEdge(GraphNode::Own(PBR_NODE), GraphNode::DebugLine),
        GraphOp::SlotEdge(GraphNode::Hdr, GraphSlot::Texture, GraphNode::Own(PBR_NODE), GraphSlot::Own(PBR_RENDER_TARGET)),
        GraphOp::SlotEdge(GraphNode::HdrMsaa, GraphSlot::Texture, GraphNode::Own(PBR_NODE), GraphSlot::Own(PBR_MSAA_TEXTURE)),
        GraphOp::SlotEdge(GraphNode::MsaaDepth, GraphSlot::Texture, GraphNode::Own(PBR_NODE), GraphSlot::Own(PBR_DEPTH)),
        GraphOp::SlotEdge(GraphNode::Input, GraphSlot::Camera, GraphNode::Own(PBR_NODE), GraphSlot::Own(PBR_CAMERA)),
    ]
}

impl PbrPlugin {
    /// The changes the plugin makes to the render graph, in order. The edge
    /// to the post processing dependencies needs that node added first, by
    /// the post processing plugin.
    pub fn graph_ops(&self) -> (ops: Vec<GraphOp>)
        ensures
            ops@ == spec_pbr_graph(),
    {
        let ops = vec![
            GraphOp::AddNode(PBR_NODE),
            GraphOp::NodeEdge(GraphNode::RenderDependencies, GraphNode::Own(PBR_NODE)),
            GraphOp::NodeEdge(GraphNode::Own(PBR_NODE), GraphNode::Own(DEPENDENCIES)),
            GraphOp::NodeEdge(GraphNode::Own(PBR_NODE), GraphNode::DebugLine),
            GraphOp::SlotEdge(GraphNode::Hdr, GraphSlot::Texture, GraphNode::Own(PBR_NODE), GraphSlot::Own(PBR_RENDER_TARGET)),
            GraphOp::SlotEdge(GraphNode::HdrMsaa, GraphSlot::Texture, GraphNode::Own(PBR_NODE), GraphSlot::Own(PBR_MSAA_TEXTURE)),
            GraphOp::SlotEdge(GraphNode::MsaaDepth, GraphSlot::Texture, GraphNode::Own(PBR_NODE), GraphSlot::Own(PBR_DEPTH)),
            GraphOp::SlotEdge(GraphNode::Input, GraphSlot::Camera, GraphNode::Own(PBR_NODE), GraphSlot::Own(PBR_CAMERA)),
        ];
        assert(ops@ =~= spec_pbr_graph());
        ops
    }
}

/// The post processing wiring followed by the PBR wiring adds every node of
/// this library before an edge uses it.
pub proof fn lemma_pbr_after_post_processing()
    ensures
        adds_before_use(crate::post_processing::spec_post_processing_graph() + spec_pbr_graph()),
{
    let s = crate::post_processing::spec_post_processing_graph() + spec_pbr_graph();
    assert(s[0] == GraphOp::AddNode(DEPENDENCIES));
    assert(s[1] == GraphOp::AddNode(crate::post_processing::TONE_MAPPING));
    assert(s[2] == GraphOp::AddNode(crate::post_processing::BLOOM));
    assert(s[9] == GraphOp::AddNode(PBR_NODE));
    assert forall|k: int| 0 <= k < s.len() implies #[trigger] own_nodes_used(s[k]).subset_of(added_before(s, k)) by {
        if k < 3 || k == 9 {
            assert(own_nodes_used(s[k]) =~= Set::empty());
        } else if k < 9 {
            assert(added_before(s, k).contains(DEPENDENCIES));
            assert(added_before(s, k).contains(crate::post_processing::TONE_MAPPING));
            assert(added_before(s, k).contains(crate::post_processing::BLOOM));
        } else {
            assert(added_before(s, k).contains(DEPENDENCIES));
            assert(added_before(s, k).contains(PBR_NODE));
        }
    }
}

/// The instances of each (mesh, material) pair drawn by the PBR node, kept
/// from frame to frame; the pairs stay in the order first seen.
pub struct MeshBatches<T> {
    batches: Vec<((u64, u64), Vec<T>)>,
}

/// The batches as (key, instances) pairs.
pub open spec fn batch_entries<T>(v: Seq<((u64, u64), Vec<T>)>) -> Seq<((u64, u64), Seq<T>)> {
    v.map_values(|e: ((u64, u64), Vec<T>)| (e.0, e.1@))
}

/// The instances of `key` among `items`, in order.
pub open spec fn instances_of<T>(items: Seq<((u64, u64), T)>, key: (u64, u64)) -> Seq<T>
    decreases items.len(),
{
    if items.len() == 0 {
        Seq::empty()
    } else if items.last().0 == key {
        instances_of(items.drop_last(), key).push(items.last().1)
    } else {
        instances_of(items.drop_last(), key)
    }
}

/// The batches with their instances dropped.
pub open spec fn cleared<T>(v: Seq<((u64, u64), Seq<T>)>) -> Seq<((u64, u64), Seq<T>)> {
    v.map_values(|e: ((u64, u64), Seq<T>)| (e.0, Seq::<T>::empty()))
}

proof fn lemma_map_of_cleared<T>(v: Seq<((u64, u64), Seq<T>)>)
    ensures
        forall|k: (u64, u64)| #[trigger] map_of(cleared(v)).contains_key(k) <==> map_of(v).contains_key(k),
        forall|k: (u64, u64)| #[trigger] map_of(cleared(v)).contains_key(k) ==> map_of(cleared(v))[k] == Seq::<T>::empty(),
    decreases v.len(),
{
    let c = cleared(v);
    if v.len() == 0 {
        assert(map_of(c) == Map::<(u64, u64), Seq<T>>::empty());
        assert(map_of(v) == Map::<(u64, u64), Seq<T>>::empty());
    } else {
        lemma_map_of_cleared(v.drop_last());
        assert(c.drop_last() =~= cleared(v.drop_last()));
        assert(c.last() == (v.last().0, Seq::<T>::empty()));
        assert(map_of(c) == map_of(cleared(v.drop_last())).insert(v.last().0, Seq::<T>::empty()));
        assert(map_of(v) == map_of(v.drop_last()).insert(v.last().0, v.last().1));
    }
}

proof fn lemma_instances_of_absent<T>(items: Seq<((u64, u64), T)>, key: (u64, u64))
    requires
        forall|j: int| 0 <= j < items.len() ==> (#[trigger] items[j]).0 != key,
    ensures
        instances_of(items, key) == Seq::<T>::empty(),
    decreases items.len(),
{
    if items.len() > 0 {
        let w = items.drop_last();
        assert forall|j: int| 0 <= j < w.len() implies (#[trigger] w[j]).0 != key by {
            assert(w[j] == items[j]);
        }
        lemma_instances_of_absent(w, key);
    }
}

impl<T> View for MeshBatches<T> {
    type V = Seq<((u64, u64), Seq<T>)>;

    closed spec fn view(&self) -> Seq<((u64, u64), Seq<T>)> {
        batch_entries(self.batches@)
    }
}

impl<T: Copy> MeshBatches<T> {
    /// No pair occurs twice.
    pub open spec fn wf(&self) -> bool {
        keys_distinct(self@)
    }

    /// The instances of each pair.
    pub open spec fn instances(&self) -> Map<(u64, u64), Seq<T>> {
        map_of(self@)
    }

    /// No batches.
    pub fn new() -> (b: Self)
        ensures
            b.wf(),
            b@ == Seq::<((u64, u64), Seq<T>)>::empty(),
    {
        let b = MeshBatches { batches: Vec::new() };
        assert(b@ =~= Seq::<((u64, u64), Seq<T>)>::empty());
        b
    }

    /// The batches, in the order their pairs were first seen.
    pub fn batches(&self) -> (r: &Vec<((u64, u64), Vec<T>)>)
        ensures
            batch_entries(r@) == self@,
    {
        &self.batches
    }

    /// Empties every batch, keeping the pairs and their order.
    pub fn clear_instances(&mut self)
        requires
            old(self).wf(),
        ensures
            final(self).wf(),
            final(self)@ == cleared(old(self)@),
    {
        let ghost start = self.batches@;
        let mut i: usize = 0;
        while i < self.batches.len()
            invariant
                i <= self.batches@.len(),
                self.batches@.len() == start.len(),
                forall|j: int| 0 <= j < start.len() ==> (#[trigger] self.batches@[j]).0 == start[j].0,
                forall|j: int| 0 <= j < i ==> (#[trigger] self.batches@[j]).1@ == Seq::<T>::empty(),
            decreases self.batches@.len() - i,
        {
            self.batches[i].1 = Vec::new();
            i = i + 1;
        }
        assert(self@ =~= cleared(old(self)@));
        assert(keys_distinct(self@));
    }

    /// Starts a frame: empties every batch, then adds each of `items`, a
    /// (mesh, material) pair and an instance, in order. A pair seen before
    /// keeps its batch, empty unless an item has it.
    pub fn prepare_frame(&mut self, items: &Vec<((u64, u64), T)>)
        requires
            old(self).wf(),
        ensures
            final(self).wf(),
            forall|k: (u64, u64)| #[trigger] final(self).instances().contains_key(k) <==> (old(self).instances().contains_key(k)
                || exists|j: int| 0 <= j < items@.len() && items@[j].0 == k),
            forall|k: (u64, u64)| #[trigger] final(self).instances().contains_key(k) ==> final(self).instances()[k]
                == instances_of(items@, k),
    {
        self.clear_instances();
        proof {
            lemma_map_of_cleared(old(self)@);
        }
        let mut i: usize = 0;
        while i < items.len()
            invariant
                i <= items@.len(),
                self.wf(),
                forall|k: (u64, u64)| #[trigger] self.instances().contains_key(k) <==> (old(self).instances().contains_key(k)
                    || exists|j: int| 0 <= j < i && items@[j].0 == k),
                forall|k: (u64, u64)| #[trigger] self.instances().contains_key(k) ==> self.instances()[k]
                    == instances_of(items@.take(i as int), k),
            decreases items@.len() - i,
        {
            let item = items[i];
            proof {
                if !self.instances().contains_key(item.0) {
                    let p = items@.take(i as int);
                    assert forall|j: int| 0 <= j < p.len() implies (#[trigger] p[j]).0 != item.0 by {
                        assert(p[j] == items@[j]);
                        if p[j].0 == item.0 {
                            assert(exists|j: int| 0 <= j < i && items@[j].0 == item.0);
                        }
                    }
                    lemma_instances_of_absent(p, item.0);
                }
            }
            self.push_instance(item.0, item.1);
            proof {
                let t = items@.take(i as int + 1);
                assert(t.drop_last() =~= items@.take(i as int));
                assert(t.last() == item);
                assert forall|k: (u64, u64)| #[trigger] self.instances().contains_key(k) implies self.instances()[k]
                    == instances_of(t, k) by {
                    if k != item.0 {
                        assert(instances_of(t, k) == instances_of(items@.take(i as int), k));
                    }
                }
                assert forall|k: (u64, u64)| #[trigger] self.instances().contains_key(k) <==> (old(self).instances().contains_key(k)
                    || exists|j: int| 0 <= j < i + 1 && items@[j].0 == k) by {
                    if exists|j: int| 0 <= j < i + 1 && items@[j].0 == k {
                        let j = choose|j: int| 0 <= j < i + 1 && items@[j].0 == k;
                        if j < i {
                            assert(exists|j: int| 0 <= j < i && items@[j].0 == k);
                        }
                    }
                    if k == item.0 {
                        assert(0 <= i < i + 1 && items@[i as int].0 == k);
                    }
                }
            }
            i = i + 1;
        }
        assert(items@.take(items@.len() as int) =~= items@);
    }

    /// Adds an instance to the batch of `key`, starting a batch at the end
    /// when the pair is new.
    pub fn push_instance(&mut self, key: (u64, u64), instance: T)
        requires
            old(self).wf(),
        ensures
            final(self).wf(),
            final(self).instances() == old(self).instances().insert(
                key,
                if old(self).instances().contains_key(key) {
                    old(self).instances()[key].push(instance)
                } else {
                    seq![instance]
                },
            ),
            old(self).instances().contains_key(key) ==> final(self)@.len() == old(self)@.len(),
            !old(self).instances().contains_key(key) ==> final(self)@ == old(self)@.push((key, seq![instance])),
            forall|j: int| 0 <= j < old(self)@.len() ==> (#[trigger] final(self)@[j]).0 == old(self)@[j].0,
    {
        let ghost es = self@;
        let mut i: usize = 0;
        while i < self.batches.len()
            invariant
                i <= self.batches@.len(),
                es == self@,
                es == old(self)@,
                keys_distinct(es),
                forall|j: int| 0 <= j < i ==> (#[trigger] es[j]).0 != key,
            decreases self.batches@.len() - i,
        {
            if self.batches[i].0.0 == key.0 && self.batches[i].0.1 == key.1 {
                proof {
                    lemma_map_of_entry(es, i as int);
                    lemma_map_of_update(es, i as int, es[i as int].1.push(instance));
                }
                self.batches[i].1.push(instance);
                proof {
                    assert(self@ =~= es.update(i as int, (key, es[i as int].1.push(instance))));
                }
                return;
            }
            i = i + 1;
        }
        proof {
            lemma_map_of_absent(es, key);
        }
        let v = vec![instance];
        assert(v@ =~= seq![instance]);
        self.batches.push((key, v));
        proof {
            assert(self@ =~= es.push((key, seq![instance])));
            assert(self@.drop_last() =~= es);
        }
    }
}

/// What the PBR node finds for one batch before drawing it: whether its
/// material is bound, which vertex attributes its mesh has on the GPU, and
/// how many indices the mesh has.
#[derive(Clone, Copy, Debug, PartialEq, Eq)]
pub struct BatchResources {
    pub material_bound: bool,
    pub has_position: bool,
    pub has_normal: bool,
    pub has_tangent: bool,
    pub has_uv: bool,
    pub index_count: u32,
}

/// One indexed draw of a batch: every index of the mesh, once per instance.
#[derive(Clone, Copy, Debug, PartialEq, Eq)]
pub struct MeshDraw {
    pub mesh: u64,
    pub material: u64,
    pub index_count: u32,
    pub instances: usize,
}

/// A batch is drawn when its material is bound and its mesh has positions,
/// normals, tangents and texture coordinates.
pub open spec fn drawable(r: BatchResources) -> bool {
    r.material_bound && r.has_position && r.has_normal && r.has_tangent && r.has_uv
}

/// The draw of a batch.
pub open spec fn draw_of<T>(b: ((u64, u64), Seq<T>), r: BatchResources) -> MeshDraw {
    MeshDraw { mesh: b.0.0, material: b.0.1, index_count: r.index_count, instances: b.1.len() as usize }
}

/// The draws of the first `n` batches, in batch order, skipping those that
/// cannot be drawn.
pub open spec fn spec_draws<T>(batches: Seq<((u64, u64), Seq<T>)>, res: Seq<BatchResources>, n: int) -> Seq<MeshDraw>
    decreases n,
{
    if n <= 0 {
        Seq::empty()
    } else if drawable(res[n - 1]) {
        spec_draws(batches, res, n - 1).push(draw_of(batches[n - 1], res[n - 1]))
    } else {
        spec_draws(batches, res, n - 1)
    }
}

/// The draw of batch `j`: its pair, its mesh's index count, its number of
/// instances.
pub open spec fn batch_draw<T>(batches: Seq<((u64, u64), Seq<T>)>, res: Seq<BatchResources>, j: int) -> MeshDraw {
    MeshDraw {
        mesh: batches[j].0.0,
        material: batches[j].0.1,
        index_count: res[j].index_count,
        instances: batches[j].1.len() as usize,
    }
}

/// Batch `j` has a bound material and a mesh with positions, normals,
/// tangents and texture coordinates.
pub open spec fn batch_complete(res: Seq<BatchResources>, j: int) -> bool {
    res[j].material_bound && res[j].has_position && res[j].has_normal && res[j].has_tangent && res[j].has_uv
}

/// Draw `k` of `draws` is the draw of a complete batch among the first `n`.
pub open spec fn draw_from_complete<T>(draws: Seq<MeshDraw>, batches: Seq<((u64, u64), Seq<T>)>, res: Seq<BatchResources>, n: int, k: int) -> bool {
    exists|j: int| 0 <= j < n && batch_complete(res, j) && draws[k] == #[trigger] batch_draw(batches, res, j)
}

/// Every draw made of the first `n` batches is the draw of one of them whose
/// material is bound and whose mesh has positions, normals, tangents and
/// texture coordinates; and every such batch is drawn.
pub proof fn lemma_draws_are_complete_batches<T>(batches: Seq<((u64, u64), Seq<T>)>, res: Seq<BatchResources>, n: int)
    requires
        0 <= n <= batches.len(),
        res.len() == batches.len(),
    ensures
        forall|k: int| 0 <= k < spec_draws(batches, res, n).len() ==> #[trigger] draw_from_complete(spec_draws(batches, res, n), batches, res, n, k),
        forall|j: int| 0 <= j < n && #[trigger] batch_complete(res, j) ==> spec_draws(batches, res, n).contains(batch_draw(batches, res, j)),
    decreases n,
{
    if n > 0 {
        lemma_draws_are_complete_batches(batches, res, n - 1);
        let prev = spec_draws(batches, res, n - 1);
        let cur = spec_draws(batches, res, n);
        assert forall|k: int| 0 <= k < cur.len() implies #[trigger] draw_from_complete(cur, batches, res, n, k) by {
            if k < prev.len() {
                assert(draw_from_complete(prev, batches, res, n - 1, k));
                let j = choose|j: int| 0 <= j < n - 1 && batch_complete(res, j) && prev[k] == #[trigger] batch_draw(batches, res, j);
                assert(cur[k] == prev[k]);
                assert(cur[k] == batch_draw(batches, res, j));
            } else {
                assert(drawable(res[n - 1]));
                assert(cur[k] == batch_draw(batches, res, n - 1));
                assert(batch_complete(res, n - 1));
            }
        }
        assert forall|j: int| 0 <= j < n && #[trigger] batch_complete(res, j) implies cur.contains(batch_draw(batches, res, j)) by {
            let d = batch_draw(batches, res, j);
            if j < n - 1 {
                assert(prev.contains(d));
                let k = choose|k: int| 0 <= k < prev.len() && prev[k] == d;
                assert(cur[k] == d);
            } else {
                assert(cur[cur.len() - 1] == d);
            }
        }
    }
}

impl<T: Copy> MeshBatches<T> {
    /// The draws of the frame, in batch order, given what was found for
    /// each batch.
    pub fn draws(&self, resources: &Vec<BatchResources>) -> (r: Vec<MeshDraw>)
        requires
            resources@.len() == self@.len(),
        ensures
            r@ == spec_draws(self@, resources@, self@.len() as int),
            forall|k: int| 0 <= k < r@.len() ==> #[trigger] draw_from_complete(r@, self@, resources@, self@.len() as int, k),
            forall|j: int| 0 <= j < self@.len() && #[trigger] batch_complete(resources@, j) ==> r@.contains(batch_draw(self@, resources@, j)),
    {
        proof {
            lemma_draws_are_complete_batches(self@, resources@, self@.len() as int);
        }
        let mut r: Vec<MeshDraw> = Vec::new();
        let mut i: usize = 0;
        while i < self.batches.len()
            invariant
                i <= self.batches@.len(),
                resources@.len() == self@.len(),
                r@ == spec_draws(self@, resources@, i as int),
            decreases self.batches@.len() - i,
        {
            let res = resources[i];
            if res.material_bound && res.has_position && res.has_normal && res.has_tangent && res.has_uv {
                let b = &self.batches[i];
                r.push(MeshDraw { mesh: b.0.0, material: b.0.1, index_count: res.index_count, instances: b.1.len() });
            }
            i = i + 1;
        }
        r
    }
}

/// The image handles of a PBR material's texture slots.
#[derive(Clone, Copy, Debug, PartialEq, Eq)]
pub struct MaterialTextures {
    pub base_color: Option<u64>,
    pub metallic_roughness: Option<u64>,
    pub emission: Option<u64>,
    pub normal_map: Option<u64>,
}

fn same_slot(slot: Option<u64>, image: u64) -> (r: bool)
    ensures
        r == (slot == Some(image)),
{
    match slot {
        Some(h) => h == image,
        None => false,
    }
}

/// The material uses `image` in one of its four texture slots.
pub open spec fn uses_image(t: MaterialTextures, image: u64) -> bool {
    t.base_color == Some(image) || t.metallic_roughness == Some(image) || t.normal_map == Some(image)
        || t.emission == Some(image)
}

impl MaterialTextures {
    /// Whether the material uses this image in any slot.
    pub fn contains_image(&self, changed: u64) -> (r: bool)
        ensures
            r == (self.base_color == Some(changed) || self.metallic_roughness == Some(changed)
                || self.normal_map == Some(changed) || self.emission == Some(changed)),
            r == uses_image(*self, changed),
    {
        same_slot(self.base_color, changed) || same_slot(self.metallic_roughness, changed)
            || same_slot(self.normal_map, changed) || same_slot(self.emission, changed)
    }
}

/// The texture bound for a slot.
#[derive(Clone, Copy, Debug, PartialEq, Eq)]
pub enum TextureSource {
    /// The slot's image, loaded on the GPU.
    Image(u64),
    /// The fallback texture.
    Fallback,
}

/// The texture to bind for a slot: its image when it has one that is
/// loaded, the fallback otherwise.
pub fn get_texture(image: Option<u64>, loaded: bool) -> (r: TextureSource)
    ensures
        r == (match image {
            Some(h) => if loaded { TextureSource::Image(h) } else { TextureSource::Fallback },
            None => TextureSource::Fallback,
        }),
{
    match image {
        Some(h) => if loaded { TextureSource::Image(h) } else { TextureSource::Fallback },
        None => TextureSource::Fallback,
    }
}

/// A change to an asset.
#[derive(Clone, Copy, Debug, PartialEq, Eq)]
pub enum AssetEvent {
    Created(u64),
    Modified(u64),
    Removed(u64),
}

/// The asset an event created or modified, if any.
pub open spec fn changed_asset(e: AssetEvent) -> Option<u64> {
    match e {
        AssetEvent::Created(h) => Some(h),
        AssetEvent::Modified(h) => Some(h),
        AssetEvent::Removed(_) => None,
    }
}

/// The materials created or modified by the first `n` events, in order.
pub open spec fn spec_changed(events: Seq<AssetEvent>, n: int) -> Seq<u64>
    decreases n,
{
    if n <= 0 {
        Seq::empty()
    } else {
        match changed_asset(events[n - 1]) {
            Some(h) => spec_changed(events, n - 1).push(h),
            None => spec_changed(events, n - 1),
        }
    }
}

/// The first `n` materials that use `image`, in order.
pub open spec fn spec_users(image: u64, materials: Seq<(u64, MaterialTextures)>, n: int) -> Seq<u64>
    decreases n,
{
    if n <= 0 {
        Seq::empty()
    } else {
        let m = materials[n - 1];
        let rest = spec_users(image, materials, n - 1);
        if m.1.base_color == Some(image) || m.1.metallic_roughness == Some(image)
            || m.1.normal_map == Some(image) || m.1.emission == Some(image) {
            rest.push(m.0)
        } else {
            rest
        }
    }
}

/// For the first `n` image events that create or modify an image, the
/// materials that use that image, in order.
pub open spec fn spec_image_rebinds(images: Seq<AssetEvent>, materials: Seq<(u64, MaterialTextures)>, n: int) -> Seq<u64>
    decreases n,
{
    if n <= 0 {
        Seq::empty()
    } else {
        match changed_asset(images[n - 1]) {
            Some(h) => spec_image_rebinds(images, materials, n - 1) + spec_users(h, materials, materials.len() as int),
            None => spec_image_rebinds(images, materials, n - 1),
        }
    }
}

/// Material `j` uses `image`.
pub open spec fn material_uses(materials: Seq<(u64, MaterialTextures)>, image: u64, j: int) -> bool {
    uses_image(materials[j].1, image)
}

/// Entry `k` of `list` is a material among the first `n` that uses `image`.
pub open spec fn listed_user(list: Seq<u64>, materials: Seq<(u64, MaterialTextures)>, image: u64, n: int, k: int) -> bool {
    exists|j: int| 0 <= j < n && #[trigger] material_uses(materials, image, j) && list[k] == materials[j].0
}

/// Entry `m` of `list` is a material that uses an image created or modified
/// by one of the first `n` events.
pub open spec fn listed_image_user(
    list: Seq<u64>,
    images: Seq<AssetEvent>,
    materials: Seq<(u64, MaterialTextures)>,
    n: int,
    m: int,
) -> bool {
    exists|k: int, j: int|
        0 <= k < n && 0 <= j < materials.len() && (#[trigger] changed_asset(images[k])) is Some
            && #[trigger] material_uses(materials, changed_asset(images[k])->0, j) && list[m] == materials[j].0
}

/// The users of `image` among the first `n` materials are exactly the
/// materials that use it in one of their four slots: each one that does is
/// listed, and each one listed does.
pub proof fn lemma_users_are_materials_using_image(image: u64, materials: Seq<(u64, MaterialTextures)>, n: int)
    requires
        0 <= n <= materials.len(),
    ensures
        forall|j: int| 0 <= j < n && #[trigger] material_uses(materials, image, j)
            ==> spec_users(image, materials, n).contains(materials[j].0),
        forall|k: int| 0 <= k < spec_users(image, materials, n).len()
            ==> #[trigger] listed_user(spec_users(image, materials, n), materials, image, n, k),
    decreases n,
{
    if n > 0 {
        lemma_users_are_materials_using_image(image, materials, n - 1);
        let prev = spec_users(image, materials, n - 1);
        let cur = spec_users(image, materials, n);
        assert forall|j: int| 0 <= j < n && #[trigger] material_uses(materials, image, j) implies cur.contains(materials[j].0) by {
            if j < n - 1 {
                let k = choose|k: int| 0 <= k < prev.len() && prev[k] == materials[j].0;
                assert(cur[k] == materials[j].0);
            } else {
                assert(cur[cur.len() - 1] == materials[j].0);
            }
        }
        assert forall|k: int| 0 <= k < cur.len() implies #[trigger] listed_user(cur, materials, image, n, k) by {
            if k < prev.len() {
                assert(listed_user(prev, materials, image, n - 1, k));
                let j = choose|j: int| 0 <= j < n - 1 && #[trigger] material_uses(materials, image, j) && prev[k] == materials[j].0;
                assert(cur[k] == prev[k]);
                assert(material_uses(materials, image, j));
            } else {
                assert(material_uses(materials, image, n - 1));
            }
        }
    }
}

/// After image events, every material that uses an image one of the first
/// `n` events created or modified is rebound, and every material rebound
/// uses such an image.
pub proof fn lemma_image_rebinds_are_users(images: Seq<AssetEvent>, materials: Seq<(u64, MaterialTextures)>, n: int)
    requires
        0 <= n <= images.len(),
    ensures
        forall|k: int, j: int| 0 <= k < n && 0 <= j < materials.len() && (#[trigger] changed_asset(images[k])) is Some
            && #[trigger] material_uses(materials, changed_asset(images[k])->0, j)
            ==> spec_image_rebinds(images, materials, n).contains(materials[j].0),
        forall|m: int| 0 <= m < spec_image_rebinds(images, materials, n).len()
            ==> #[trigger] listed_image_user(spec_image_rebinds(images, materials, n), images, materials, n, m),
    decreases n,
{
    if n > 0 {
        lemma_image_rebinds_are_users(images, materials, n - 1);
        let prev = spec_image_rebinds(images, materials, n - 1);
        let cur = spec_image_rebinds(images, materials, n);
        match changed_asset(images[n - 1]) {
            Some(h) => {
                let users = spec_users(h, materials, materials.len() as int);
                lemma_users_are_materials_using_image(h, materials, materials.len() as int);
                assert(cur == prev + users);
                assert forall|k: int, j: int| 0 <= k < n && 0 <= j < materials.len() && (#[trigger] changed_asset(images[k])) is Some
                    && #[trigger] material_uses(materials, changed_asset(images[k])->0, j) implies cur.contains(materials[j].0) by {
                    if k < n - 1 {
                        let i = choose|i: int| 0 <= i < prev.len() && prev[i] == materials[j].0;
                        assert(cur[i] == materials[j].0);
                    } else {
                        assert(users.contains(materials[j].0));
                        let i = choose|i: int| 0 <= i < users.len() && users[i] == materials[j].0;
                        assert(cur[prev.len() + i] == materials[j].0);
                    }
                }
                assert forall|m: int| 0 <= m < cur.len() implies #[trigger] listed_image_user(cur, images, materials, n, m) by {
                    if m < prev.len() {
                        assert(listed_image_user(prev, images, materials, n - 1, m));
                        let (k, j) = choose|k: int, j: int|
                            0 <= k < n - 1 && 0 <= j < materials.len() && (#[trigger] changed_asset(images[k])) is Some
                                && #[trigger] material_uses(materials, changed_asset(images[k])->0, j) && prev[m] == materials[j].0;
                        assert(cur[m] == prev[m]);
                        assert(changed_asset(images[k]) is Some && material_uses(materials, changed_asset(images[k])->0, j));
                    } else {
                        assert(cur[m] == users[m - prev.len()]);
                        assert(listed_user(users, materials, h, materials.len() as int, m - prev.len()));
                        let j = choose|j: int| 0 <= j < materials.len() && #[trigger] material_uses(materials, h, j)
                            && users[m - prev.len()] == materials[j].0;
                        assert(changed_asset(images[n - 1]) is Some);
                        assert(material_uses(materials, changed_asset(images[n - 1])->0, j));
                    }
                }
            },
            None => {
                assert(cur == prev);
                assert forall|m: int| 0 <= m < cur.len() implies #[trigger] listed_image_user(cur, images, materials, n, m) by {
                    assert(listed_image_user(prev, images, materials, n - 1, m));
                    let (k, j) = choose|k: int, j: int|
                        0 <= k < n - 1 && 0 <= j < materials.len() && (#[trigger] changed_asset(images[k])) is Some
                            && #[trigger] material_uses(materials, changed_asset(images[k])->0, j) && prev[m] == materials[j].0;
                    assert(changed_asset(images[k]) is Some && material_uses(materials, changed_asset(images[k])->0, j));
                }
            },
        }
    }
}

/// Every material that one of the first `n` events created or modified is
/// listed.
pub proof fn lemma_changed_listed(events: Seq<AssetEvent>, n: int)
    requires
        0 <= n <= events.len(),
    ensures
        forall|k: int| 0 <= k < n && (#[trigger] changed_asset(events[k])) is Some
            ==> spec_changed(events, n).contains(changed_asset(events[k])->0),
    decreases n,
{
    if n > 0 {
        lemma_changed_listed(events, n - 1);
        let prev = spec_changed(events, n - 1);
        let cur = spec_changed(events, n);
        assert forall|k: int| 0 <= k < n && (#[trigger] changed_asset(events[k])) is Some
            implies cur.contains(changed_asset(events[k])->0) by {
            if k < n - 1 {
                let i = choose|i: int| 0 <= i < prev.len() && prev[i] == changed_asset(events[k])->0;
                assert(cur[i] == prev[i]);
            } else {
                assert(cur[cur.len() - 1] == changed_asset(events[k])->0);
            }
        }
    }
}

fn users_of(image: u64, materials: &Vec<(u64, MaterialTextures)>, out: &mut Vec<u64>)
    ensures
        final(out)@ == old(out)@ + spec_users(image, materials@, materials@.len() as int),
{
    let ghost start = out@;
    let mut j: usize = 0;
    while j < materials.len()
        invariant
            j <= materials@.len(),
            out@ == start + spec_users(image, materials@, j as int),
        decreases materials@.len() - j,
    {
        let m = materials[j];
        if m.1.contains_image(image) {
            out.push(m.0);
            assert(out@ =~= start + spec_users(image, materials@, j as int + 1));
        }
        j = j + 1;
    }
}

/// The materials whose bindings are rebuilt after these events, in order:
/// each material created or modified, then, for each image created or
/// modified, every material that uses it. A material may come more than once.
pub fn materials_to_rebind(
    material_events: &Vec<AssetEvent>,
    image_events: &Vec<AssetEvent>,
    materials: &Vec<(u64, MaterialTextures)>,
) -> (r: Vec<u64>)
    ensures
        r@ == spec_changed(material_events@, material_events@.len() as int) + spec_image_rebinds(
            image_events@,
            materials@,
            image_events@.len() as int,
        ),
        forall|k: int| 0 <= k < material_events@.len() && (#[trigger] changed_asset(material_events@[k])) is Some
            ==> r@.contains(changed_asset(material_events@[k])->0),
        forall|k: int, j: int| 0 <= k < image_events@.len() && 0 <= j < materials@.len()
            && (#[trigger] changed_asset(image_events@[k])) is Some
            && #[trigger] material_uses(materials@, changed_asset(image_events@[k])->0, j) ==> r@.contains(materials@[j].0),
{
    proof {
        let a = spec_changed(material_events@, material_events@.len() as int);
        let b = spec_image_rebinds(image_events@, materials@, image_events@.len() as int);
        lemma_changed_listed(material_events@, material_events@.len() as int);
        lemma_image_rebinds_are_users(image_events@, materials@, image_events@.len() as int);
        assert forall|x: u64| a.contains(x) implies #[trigger] (a + b).contains(x) by {
            let i = choose|i: int| 0 <= i < a.len() && a[i] == x;
            assert((a + b)[i] == x);
        }
        assert forall|x: u64| b.contains(x) implies #[trigger] (a + b).contains(x) by {
            let i = choose|i: int| 0 <= i < b.len() && b[i] == x;
            assert((a + b)[a.len() + i] == x);
        }
    }
    let mut r: Vec<u64> = Vec::new();
    let mut i: usize = 0;
    while i < material_events.len()
        invariant
            i <= material_events@.len(),
            r@ == spec_changed(material_events@, i as int),
        decreases material_events@.len() - i,
    {
        match material_events[i] {
            AssetEvent::Created(h) => r.push(h),
            AssetEvent::Modified(h) => r.push(h),
            AssetEvent::Removed(_) => {},
        }
        i = i + 1;
    }
    let ghost first = r@;
    let mut k: usize = 0;
    while k < image_events.len()
        invariant
            k <= image_events@.len(),
            first == spec_changed(material_events@, material_events@.len() as int),
            r@ == first + spec_image_rebinds(image_events@, materials@, k as int),
        decreases image_events@.len() - k,
    {
        match image_events[k] {
            AssetEvent::Created(h) => users_of(h, materials, &mut r),
            AssetEvent::Modified(h) => users_of(h, materials, &mut r),
            AssetEvent::Removed(_) => {},
        }
        proof {
            assert(r@ =~= first + spec_image_rebinds(image_events@, materials@, k as int + 1));
        }
        k = k + 1;
    }
    r
}

/// The meshes, among the first `n` handles, whose GPU buffers are created:
/// each handle whose buffers are not `present`, once, in order of first
/// appearance.
pub open spec fn spec_uploads(handles: Seq<u64>, present: Seq<u64>, n: int) -> Seq<u64>
    decreases n,
{
    if n <= 0 {
        Seq::empty()
    } else {
        let r = spec_uploads(handles, present, n - 1);
        let h = handles[n - 1];
        if present.contains(h) || r.contains(h) {
            r
        } else {
            r.push(h)
        }
    }
}

fn contains_handle(v: &Vec<u64>, h: u64) -> (r: bool)
    ensures
        r == v@.contains(h),
{
    let mut i: usize = 0;
    while i < v.len()
        invariant
            i <= v@.len(),
            forall|j: int| 0 <= j < i ==> v@[j] != h,
        decreases v@.len() - i,
    {
        if v[i] == h {
            assert(v@[i as int] == h);
            return true;
        }
        i = i + 1;
    }
    false
}

/// The meshes whose GPU buffers the PBR node creates before a frame: the
/// meshes drawn (`handles`, in query order) whose buffers are not `present`,
/// each once.
pub fn meshes_to_upload(handles: &Vec<u64>, present: &Vec<u64>) -> (r: Vec<u64>)
    ensures
        r@ == spec_uploads(handles@, present@, handles@.len() as int),
{
    let mut r: Vec<u64> = Vec::new();
    let mut i: usize = 0;
    while i < handles.len()
        invariant
            i <= handles@.len(),
            r@ == spec_uploads(handles@, present@, i as int),
        decreases handles@.len() - i,
    {
        let h = handles[i];
        if !contains_handle(present, h) && !contains_handle(&r, h) {
            r.push(h);
        }
        i = i + 1;
    }
    r
}

} // verus!
