//! Post processing: bloom mip-chain planning and tone mapping uniforms.
use vstd::prelude::*;
use crate::render_graph::{GraphNode, GraphOp, GraphSlot, adds_before_use, added_before, own_nodes_used};

verus! {

/// `2^e` as a mathematical integer.
pub open spec fn pow2(e: nat) -> nat
    decreases e,
{
    if e == 0 {
        1
    } else {
        2 * pow2((e - 1) as nat)
    }
}

/// The number of mip levels `m` (at least one) at which the bloom chain
/// stops halving: the first `m >= 1` with `size / 2^m <= 4`.
pub open spec fn is_halving_stop(size: nat, m: nat) -> bool {
    &&& m >= 1
    &&& size / pow2(m) <= 4
    &&& forall|k: nat| 1 <= k < m ==> size / #[trigger] pow2(k) > 4
}

proof fn lemma_pow2_pos(e: nat)
    ensures
        pow2(e) >= 1,
    decreases e,
{
    if e > 0 {
        lemma_pow2_pos((e - 1) as nat);
    }
}

#[derive(Clone, Copy, Debug, PartialEq, Eq)]
pub struct BloomNode {
    pub texture_size: Option<(u32, u32)>,
}

impl BloomNode {
    /// Number of mip levels of the bloom chain for a `width x height` target:
    /// one more than the first halving count at which the smaller side, divided
    /// by `2^m`, is at most 4.
    pub fn calculate_mips(width: u32, height: u32) -> (mips: u32)
        ensures
            is_halving_stop(if width <= height { width as nat } else { height as nat }, (mips - 1) as nat),
            mips >= 2,
    {
        let size: u32 = if width <= height { width } else { height };
        let mut mips: u32 = 1;
        let mut p: u32 = 2;
        proof {
            reveal_with_fuel(pow2, 2);
        }
        while size / p > 4
            invariant
                1 <= mips <= p <= 0x8000_0000,
                p == pow2(mips as nat),
                forall|k: nat| 1 <= k < mips ==> (size as nat) / #[trigger] pow2(k) > 4,
            decreases 0x1_0000_0000 - p,
        {
            assert(p < 0x4000_0000) by (nonlinear_arith)
                requires
                    size / p > 4,
                    p >= 1,
            {
            }
            p = p * 2;
            mips = mips + 1;
        }
        mips + 1
    }
}


/// The textures a bloom pass reads or renders to.
#[derive(Clone, Copy, Debug, PartialEq, Eq)]
pub enum BloomTexture {
    /// The HDR target handed to the node.
    Target,
    /// The mip chain written while halving.
    DownSample,
    /// The mip chain written while doubling back up.
    UpSample,
    /// The single-level texture handed on as the node's output.
    Output,
}

/// One mip level of one bloom texture.
#[derive(Clone, Copy, Debug, PartialEq, Eq)]
pub struct MipView {
    pub texture: BloomTexture,
    pub mip: u32,
}

/// The two views an up-sample bind group samples from.
#[derive(Clone, Copy, Debug, PartialEq, Eq)]
pub struct UpSampleSources {
    pub source: MipView,
    pub additional: MipView,
}

/// The four render pipelines of the bloom effect.
#[derive(Clone, Copy, Debug, PartialEq, Eq)]
pub enum BloomPipelineKind {
    Filter,
    DownSample,
    UpSample,
    Apply,
}

/// Which bind group a pass binds: the filter group, the `i`-th down-sample or
/// up-sample group, or the apply group.
#[derive(Clone, Copy, Debug, PartialEq, Eq)]
pub enum BloomBindGroup {
    Filter,
    DownSample(u32),
    UpSample(u32),
    Apply,
}

/// One full-screen pass of the bloom effect.
#[derive(Clone, Copy, Debug, PartialEq, Eq)]
pub struct BloomPass {
    pub pipeline: BloomPipelineKind,
    pub bind_group: BloomBindGroup,
    pub target: MipView,
}

pub open spec fn mip_view(texture: BloomTexture, mip: int) -> MipView {
    MipView { texture, mip: mip as u32 }
}

/// The view the `i`-th down-sample bind group samples.
pub open spec fn spec_down_sample_source(i: int) -> MipView {
    mip_view(BloomTexture::DownSample, i)
}

/// The views the `i`-th up-sample bind group samples, for a chain of `mips`
/// levels: the level above it (taken from the down-sample chain for the
/// topmost group, from the up-sample chain otherwise) and the down-sampled
/// level of the same size.
pub open spec fn spec_up_sample_sources(mips: int, i: int) -> UpSampleSources {
    UpSampleSources {
        source: mip_view(
            if i == mips - 2 { BloomTexture::DownSample } else { BloomTexture::UpSample },
            i + 1,
        ),
        additional: mip_view(BloomTexture::DownSample, i),
    }
}

/// The order in which the node renders its passes for a chain of `mips`
/// levels: the bright-pass filter into level 0 of the down-sample chain, one
/// down-sample pass per further level, the up-sample passes from the smallest
/// level back to level 0, and the apply pass into the output texture.
pub open spec fn spec_pass_schedule(mips: int) -> Seq<BloomPass> {
    let d = mips - 1;
    Seq::new(
        (2 * mips) as nat,
        |i: int|
            if i == 0 {
                BloomPass {
                    pipeline: BloomPipelineKind::Filter,
                    bind_group: BloomBindGroup::Filter,
                    target: mip_view(BloomTexture::DownSample, 0),
                }
            } else if i <= d {
                BloomPass {
                    pipeline: BloomPipelineKind::DownSample,
                    bind_group: BloomBindGroup::DownSample((i - 1) as u32),
                    target: mip_view(BloomTexture::DownSample, i),
                }
            } else if i <= 2 * d {
                BloomPass {
                    pipeline: BloomPipelineKind::UpSample,
                    bind_group: BloomBindGroup::UpSample((2 * d - i) as u32),
                    target: mip_view(BloomTexture::UpSample, 2 * d - i),
                }
            } else {
                BloomPass {
                    pipeline: BloomPipelineKind::Apply,
                    bind_group: BloomBindGroup::Apply,
                    target: mip_view(BloomTexture::Output, 0),
                }
            },
    )
}

/// The views bind group `g` samples, for a chain of `mips` levels.
pub open spec fn bind_group_reads(mips: int, g: BloomBindGroup) -> Seq<MipView> {
    match g {
        BloomBindGroup::Filter => seq![mip_view(BloomTexture::Target, 0)],
        BloomBindGroup::DownSample(i) => seq![spec_down_sample_source(i as int)],
        BloomBindGroup::UpSample(i) => seq![
            spec_up_sample_sources(mips, i as int).source,
            spec_up_sample_sources(mips, i as int).additional,
        ],
        BloomBindGroup::Apply => seq![
            mip_view(BloomTexture::Target, 0),
            mip_view(BloomTexture::UpSample, 0),
        ],
    }
}

/// A bind group that the node has created for a chain of `mips` levels.
pub open spec fn bind_group_exists(mips: int, g: BloomBindGroup) -> bool {
    match g {
        BloomBindGroup::DownSample(i) => i < mips - 1,
        BloomBindGroup::UpSample(i) => i < mips - 1,
        _ => true,
    }
}

/// A view that exists: the down- and up-sample chains have `mips` levels,
/// the target and the output one.
pub open spec fn view_exists(mips: int, v: MipView) -> bool {
    match v.texture {
        BloomTexture::DownSample => v.mip < mips,
        BloomTexture::UpSample => v.mip < mips,
        _ => v.mip == 0,
    }
}

impl BloomNode {
    /// The smaller side of the target divided by `2^(mips - 1)`: the bloom
    /// scale factor is this value divided by four.
    pub fn scale_factor_numerator(width: u32, height: u32, mips: u32) -> (n: u32)
        requires
            1 <= mips <= 32,
        ensures
            n as nat == (if width <= height { width as nat } else { height as nat }) / pow2(
                (mips - 1) as nat,
            ),
    {
        let size: u32 = if width <= height { width } else { height };
        let mut p: u32 = 1;
        let mut i: u32 = 0;
        while i < mips - 1
            invariant
                i <= mips - 1,
                mips <= 32,
                p == pow2(i as nat),
                p <= 0x8000_0000,
            decreases mips - 1 - i,
        {
            proof {
                lemma_pow2_le((i + 1) as nat);
                assert(pow2((i + 1) as nat) == 2 * pow2(i as nat));
            }
            p = p * 2;
            i = i + 1;
        }
        proof {
            lemma_pow2_pos(i as nat);
        }
        size / p
    }

    /// Records the size of the current target and says whether it differs
    /// from the size the resources were last built for, in which case they
    /// must be built again.
    pub fn update_texture_size(&mut self, width: u32, height: u32) -> (changed: bool)
        ensures
            changed == (old(self).texture_size != Some((width, height))),
            final(self).texture_size == Some((width, height)),
    {
        let changed = match self.texture_size {
            Some((w, h)) => !(w == width && h == height),
            None => true,
        };
        self.texture_size = Some((width, height));
        changed
    }

    /// The view each down-sample bind group samples: level `i` of the
    /// down-sample chain for the `i`-th group, one group per level but the last.
    pub fn down_sample_sources(mips: u32) -> (sources: Vec<MipView>)
        requires
            mips >= 1,
        ensures
            sources@.len() == mips - 1,
            forall|i: int| 0 <= i < mips - 1 ==> sources@[i] == spec_down_sample_source(i),
    {
        let mut sources: Vec<MipView> = Vec::new();
        let mut mip: u32 = 0;
        while mip < mips - 1
            invariant
                mip <= mips - 1,
                sources@.len() == mip,
                forall|i: int| 0 <= i < mip ==> sources@[i] == spec_down_sample_source(i),
            decreases mips - 1 - mip,
        {
            sources.push(MipView { texture: BloomTexture::DownSample, mip });
            mip = mip + 1;
        }
        sources
    }

    /// The views each up-sample bind group samples, one group per level but
    /// the last.
    pub fn up_sample_sources(mips: u32) -> (sources: Vec<UpSampleSources>)
        requires
            mips >= 1,
        ensures
            sources@.len() == mips - 1,
            forall|i: int| 0 <= i < mips - 1 ==> sources@[i] == spec_up_sample_sources(mips as int, i),
    {
        let mut sources: Vec<UpSampleSources> = Vec::new();
        let mut mip: u32 = 0;
        while mip < mips - 1
            invariant
                mip <= mips - 1,
                sources@.len() == mip,
                forall|i: int| 0 <= i < mip ==> sources@[i] == spec_up_sample_sources(mips as int, i),
            decreases mips - 1 - mip,
        {
            let texture = if mip == mips - 2 {
                BloomTexture::DownSample
            } else {
                BloomTexture::UpSample
            };
            sources.push(
                UpSampleSources {
                    source: MipView { texture, mip: mip + 1 },
                    additional: MipView { texture: BloomTexture::DownSample, mip },
                },
            );
            mip = mip + 1;
        }
        sources
    }

    /// The passes the node renders, in order, for a chain of `mips` levels.
    pub fn pass_schedule(mips: u32) -> (passes: Vec<BloomPass>)
        requires
            1 <= mips <= 0x7fff_ffff,
        ensures
            passes@ == spec_pass_schedule(mips as int),
            passes@.len() == 2 * mips,
            passes@[0].pipeline == BloomPipelineKind::Filter,
            forall|i: int| 1 <= i < mips ==> (#[trigger] passes@[i]).pipeline == BloomPipelineKind::DownSample,
            forall|i: int| mips <= i < 2 * mips - 1 ==> (#[trigger] passes@[i]).pipeline == BloomPipelineKind::UpSample,
            passes@[2 * mips - 1].pipeline == BloomPipelineKind::Apply,
    {
        proof {
            lemma_bloom_pass_pipelines(mips);
        }
        let ghost spec = spec_pass_schedule(mips as int);
        let mut passes: Vec<BloomPass> = Vec::new();
        passes.push(
            BloomPass {
                pipeline: BloomPipelineKind::Filter,
                bind_group: BloomBindGroup::Filter,
                target: MipView { texture: BloomTexture::DownSample, mip: 0 },
            },
        );
        let mut mip: u32 = 0;
        while mip < mips - 1
            invariant
                mip <= mips - 1,
                mips <= 0x7fff_ffff,
                spec == spec_pass_schedule(mips as int),
                passes@.len() == mip + 1,
                forall|i: int| 0 <= i < passes@.len() ==> passes@[i] == spec[i],
            decreases mips - 1 - mip,
        {
            passes.push(
                BloomPass {
                    pipeline: BloomPipelineKind::DownSample,
                    bind_group: BloomBindGroup::DownSample(mip),
                    target: MipView { texture: BloomTexture::DownSample, mip: mip + 1 },
                },
            );
            mip = mip + 1;
        }
        let mut k: u32 = mips - 1;
        while k > 0
            invariant
                k <= mips - 1,
                mips <= 0x7fff_ffff,
                spec == spec_pass_schedule(mips as int),
                passes@.len() == mips + (mips - 1 - k),
                forall|i: int| 0 <= i < passes@.len() ==> passes@[i] == spec[i],
            decreases k,
        {
            k = k - 1;
            passes.push(
                BloomPass {
                    pipeline: BloomPipelineKind::UpSample,
                    bind_group: BloomBindGroup::UpSample(k),
                    target: MipView { texture: BloomTexture::UpSample, mip: k },
                },
            );
        }
        passes.push(
            BloomPass {
                pipeline: BloomPipelineKind::Apply,
                bind_group: BloomBindGroup::Apply,
                target: MipView { texture: BloomTexture::Output, mip: 0 },
            },
        );
        assert(passes@ =~= spec);
        passes
    }
}

proof fn lemma_pow2_mono(a: nat, b: nat)
    requires
        a <= b,
    ensures
        pow2(a) <= pow2(b),
    decreases b,
{
    if a < b {
        lemma_pow2_mono(a, (b - 1) as nat);
        lemma_pow2_pos((b - 1) as nat);
    }
}

proof fn lemma_pow2_le(e: nat)
    requires
        e <= 31,
    ensures
        pow2(e) <= 0x8000_0000,
{
    lemma_pow2_mono(e, 31);
    reveal_with_fuel(pow2, 32);
}

/// The bloom passes run the bright-pass filter once, first; then one
/// down-sample pass per further level, each sampling the level above and
/// rendering the next; then the up-sample passes, smallest level first; then
/// one apply pass into the output.
pub proof fn lemma_bloom_pass_pipelines(mips: u32)
    requires
        1 <= mips <= 0x7fff_ffff,
    ensures
        spec_pass_schedule(mips as int).len() == 2 * mips,
        spec_pass_schedule(mips as int)[0].pipeline == BloomPipelineKind::Filter,
        spec_pass_schedule(mips as int)[0].target == (MipView { texture: BloomTexture::DownSample, mip: 0 }),
        forall|i: int| 1 <= i < mips ==> {
            &&& (#[trigger] spec_pass_schedule(mips as int)[i]).pipeline == BloomPipelineKind::DownSample
            &&& spec_pass_schedule(mips as int)[i].bind_group == BloomBindGroup::DownSample((i - 1) as u32)
            &&& spec_pass_schedule(mips as int)[i].target == (MipView { texture: BloomTexture::DownSample, mip: i as u32 })
        },
        forall|i: int| mips <= i < 2 * mips - 1 ==> {
            &&& (#[trigger] spec_pass_schedule(mips as int)[i]).pipeline == BloomPipelineKind::UpSample
            &&& spec_pass_schedule(mips as int)[i].bind_group == BloomBindGroup::UpSample((2 * mips - 2 - i) as u32)
            &&& spec_pass_schedule(mips as int)[i].target == (MipView { texture: BloomTexture::UpSample, mip: (2 * mips - 2 - i) as u32 })
        },
        spec_pass_schedule(mips as int)[2 * mips - 1].pipeline == BloomPipelineKind::Apply,
        spec_pass_schedule(mips as int)[2 * mips - 1].target == (MipView { texture: BloomTexture::Output, mip: 0 }),
{
}

/// Every pass of the schedule binds a bind group that the node created and
/// only touches mip levels its textures have, so no lookup of the run panics.
pub proof fn lemma_bloom_schedule_in_range(mips: u32)
    requires
        2 <= mips <= 0x7fff_ffff,
    ensures
        forall|j: int|
            0 <= j < spec_pass_schedule(mips as int).len() ==> {
                let pass = #[trigger] spec_pass_schedule(mips as int)[j];
                &&& bind_group_exists(mips as int, pass.bind_group)
                &&& view_exists(mips as int, pass.target)
                &&& forall|r: int|
                    0 <= r < bind_group_reads(mips as int, pass.bind_group).len() ==> view_exists(
                        mips as int,
                        #[trigger] bind_group_reads(mips as int, pass.bind_group)[r],
                    )
            },
{
}

/// Every mip level a pass samples, other than the node's input target, has
/// been rendered by an earlier pass of the same schedule.
pub proof fn lemma_bloom_reads_follow_writes(mips: u32)
    requires
        2 <= mips <= 0x7fff_ffff,
    ensures
        forall|j: int, r: int|
            0 <= j < spec_pass_schedule(mips as int).len() && 0 <= r < bind_group_reads(
                mips as int,
                #[trigger] spec_pass_schedule(mips as int)[j].bind_group,
            ).len() && (#[trigger] bind_group_reads(
                mips as int,
                spec_pass_schedule(mips as int)[j].bind_group,
            )[r]).texture != BloomTexture::Target ==> exists|k: int|
                0 <= k < j && #[trigger] spec_pass_schedule(mips as int)[k].target
                    == bind_group_reads(mips as int, spec_pass_schedule(mips as int)[j].bind_group)[r],
{
    let n = mips as int;
    let s = spec_pass_schedule(n);
    let d = n - 1;
    assert forall|j: int, r: int|
        0 <= j < s.len() && 0 <= r < bind_group_reads(n, #[trigger] s[j].bind_group).len()
            && (#[trigger] bind_group_reads(n, s[j].bind_group)[r]).texture != BloomTexture::Target
        implies exists|k: int| 0 <= k < j && #[trigger] s[k].target == bind_group_reads(n, s[j].bind_group)[r] by {
        let v = bind_group_reads(n, s[j].bind_group)[r];
        if j == 0 {
        } else if j <= d {
            assert(s[j - 1].target == v);
        } else if j <= 2 * d {
            let m = 2 * d - j;
            if r == 0 {
                if m == n - 2 {
                    assert(s[d].target == v);
                } else {
                    assert(s[j - 1].target == v);
                }
            } else {
                assert(s[m].target == v);
            }
        } else {
            assert(r == 1);
            assert(s[2 * d].target == v);
        }
    }
}

/// The uniforms of the tone mapping pass: which tone mapping to apply.
#[derive(Clone, Copy, Debug, PartialEq, Eq)]
pub struct ToneMappingUniforms {
    pub tone_mapping: u32,
}

/// The tone mapping node, by the texture view its binding was made for.
#[derive(Clone, Copy, Debug, PartialEq, Eq, Default)]
pub struct ToneMappingNode {
    pub binding_target: Option<u64>,
}

impl ToneMappingNode {
    /// Before a pass over the HDR view `hdr_target`: whether the binding must
    /// be made anew (there is none yet, or it was made for another view);
    /// afterwards it belongs to `hdr_target`.
    pub fn update_binding(&mut self, hdr_target: u64) -> (recreate: bool)
        ensures
            recreate == (old(self).binding_target != Some(hdr_target)),
            final(self).binding_target == Some(hdr_target),
    {
        let recreate = match self.binding_target {
            Some(id) => id != hdr_target,
            None => true,
        };
        self.binding_target = Some(hdr_target);
        recreate
    }
}

/// The node that post processing depends on.
pub const DEPENDENCIES: &'static str = "post_processing_dependencies";

/// The bloom node.
pub const BLOOM: &'static str = "bloom";

/// The tone mapping node.
pub const TONE_MAPPING: &'static str = "tone_mapping";

/// The bloom node's input slot: the HDR texture to bloom.
pub const BLOOM_TARGET: &'static str = "target";

/// The bloom node's output slot.
pub const BLOOM_OUTPUT: &'static str = "output";

/// The tone mapping node's input slot for the HDR texture.
pub const TONE_MAPPING_HDR_TARGET: &'static str = "hdr_target";

/// The tone mapping node's output slot.
pub const TONE_MAPPING_TARGET: &'static str = "target";

/// Sets up bloom and tone mapping.
#[derive(Clone, Copy, Debug, Default)]
pub struct PostProcessingPlugin;

/// The render graph wiring of post processing: a dependency node after the
/// renderer's, bloom and tone mapping after it; the HDR texture goes through
/// bloom into tone mapping, which writes the surface texture.
pub open spec fn spec_post_processing_graph() -> Seq<GraphOp> {
    seq![
        GraphOp::AddNode(DEPENDENCIES),
        GraphOp::AddNode(TONE_MAPPING),
        GraphOp::AddNode(BLOOM),
        GraphOp::NodeEdge(GraphNode::RenderDependencies, GraphNode::Own(DEPENDENCIES)),
        GraphOp::NodeEdge(GraphNode::Own(DEPENDENCIES), GraphNode::Own(BLOOM)),
        GraphOp::NodeEdge(GraphNode::Own(DEPENDENCIES), GraphNode::Own(TONE_MAPPING)),
        GraphOp::SlotEdge(GraphNode::Hdr, GraphSlot::Texture, GraphNode::Own(BLOOM), GraphSlot::Own(BLOOM_TARGET)),
        GraphOp::SlotEdge(
            GraphNode::Own(BLOOM),
            GraphSlot::Own(BLOOM_OUTPUT),
            GraphNode::Own(TONE_MAPPING),
            GraphSlot::Own(TONE_MAPPING_HDR_TARGET),
        ),
        GraphOp::SlotEdge(
            GraphNode::Input,
            GraphSlot::SurfaceTexture,
            GraphNode::Own(TONE_MAPPING),
            GraphSlot::Own(TONE_MAPPING_TARGET),
        ),
    ]
}

impl PostProcessingPlugin {
    /// The changes the plugin makes to the render graph, in order.
    pub fn graph_ops(&self) -> (ops: Vec<GraphOp>)
        ensures
            ops@ == spec_post_processing_graph(),
            adds_before_use(ops@),
    {
        let ops = vec![
            GraphOp::AddNode(DEPENDENCIES),
            GraphOp::AddNode(TONE_MAPPING),
            GraphOp::AddNode(BLOOM),
            GraphOp::NodeEdge(GraphNode::RenderDependencies, GraphNode::Own(DEPENDENCIES)),
            GraphOp::NodeEdge(GraphNode::Own(DEPENDENCIES), GraphNode::Own(BLOOM)),
            GraphOp::NodeEdge(GraphNode::Own(DEPENDENCIES), GraphNode::Own(TONE_MAPPING)),
            GraphOp::SlotEdge(GraphNode::Hdr, GraphSlot::Texture, GraphNode::Own(BLOOM), GraphSlot::Own(BLOOM_TARGET)),
            GraphOp::SlotEdge(
                GraphNode::Own(BLOOM),
                GraphSlot::Own(BLOOM_OUTPUT),
                GraphNode::Own(TONE_MAPPING),
                GraphSlot::Own(TONE_MAPPING_HDR_TARGET),
            ),
            GraphOp::SlotEdge(
                GraphNode::Input,
                GraphSlot::SurfaceTexture,
                GraphNode::Own(TONE_MAPPING),
                GraphSlot::Own(TONE_MAPPING_TARGET),
            ),
        ];
        proof {
            let s = ops@;
            assert(s =~= spec_post_processing_graph());
            assert forall|k: int| 3 <= k < s.len() implies {
                &&& added_before(s, k).contains(DEPENDENCIES)
                &&& added_before(s, k).contains(TONE_MAPPING)
                &&& added_before(s, k).contains(BLOOM)
            } by {
                assert(s[0] == GraphOp::AddNode(DEPENDENCIES));
                assert(s[1] == GraphOp::AddNode(TONE_MAPPING));
                assert(s[2] == GraphOp::AddNode(BLOOM));
            }
            assert forall|k: int| 0 <= k < s.len() implies #[trigger] own_nodes_used(s[k]).subset_of(added_before(s, k)) by {
                if k < 3 {
                    assert(own_nodes_used(s[k]) =~= Set::empty());
                }
            }
        }
        ops
    }
}

} // verus!
