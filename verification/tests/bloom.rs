use ike::post_processing::{
    BloomBindGroup, BloomNode, BloomPass, BloomPipelineKind, BloomTexture, MipView, PostProcessingPlugin,
    ToneMappingNode, ToneMappingUniforms, UpSampleSources, BLOOM, BLOOM_OUTPUT, BLOOM_TARGET, DEPENDENCIES, TONE_MAPPING,
    TONE_MAPPING_HDR_TARGET, TONE_MAPPING_TARGET,
};
use ike::render_graph::{GraphNode, GraphOp, GraphSlot};

fn view(texture: BloomTexture, mip: u32) -> MipView {
    MipView { texture, mip }
}

#[test]
fn calculate_mips_full_hd() {
    assert_eq!(BloomNode::calculate_mips(1920, 1080), 9);
    assert_eq!(BloomNode::calculate_mips(1080, 1920), 9);
}

#[test]
fn calculate_mips_small_targets() {
    assert_eq!(BloomNode::calculate_mips(0, 0), 2);
    assert_eq!(BloomNode::calculate_mips(8, 100), 2);
    assert_eq!(BloomNode::calculate_mips(9, 9), 2);
    assert_eq!(BloomNode::calculate_mips(10, 10), 3);
    assert_eq!(BloomNode::calculate_mips(u32::MAX, u32::MAX), 31);
}

#[test]
fn scale_factor_numerator_divides_smaller_side() {
    assert_eq!(BloomNode::scale_factor_numerator(1920, 1080, 9), 4);
    assert_eq!(BloomNode::scale_factor_numerator(1920, 1080, 1), 1080);
    assert_eq!(BloomNode::scale_factor_numerator(100, 50, 3), 12);
}

#[test]
fn update_texture_size_reports_changes() {
    let mut node = BloomNode { texture_size: None };
    assert!(node.update_texture_size(800, 600));
    assert_eq!(node.texture_size, Some((800, 600)));
    assert!(!node.update_texture_size(800, 600));
    assert!(node.update_texture_size(600, 800));
    assert_eq!(node.texture_size, Some((600, 800)));
}

#[test]
fn down_sample_sources_one_per_level_but_last() {
    let sources = BloomNode::down_sample_sources(4);
    assert_eq!(
        sources,
        vec![view(BloomTexture::DownSample, 0), view(BloomTexture::DownSample, 1), view(BloomTexture::DownSample, 2)]
    );
    assert!(BloomNode::down_sample_sources(1).is_empty());
}

#[test]
fn up_sample_sources_take_topmost_from_down_chain() {
    let sources = BloomNode::up_sample_sources(3);
    assert_eq!(
        sources,
        vec![
            UpSampleSources { source: view(BloomTexture::UpSample, 1), additional: view(BloomTexture::DownSample, 0) },
            UpSampleSources { source: view(BloomTexture::DownSample, 2), additional: view(BloomTexture::DownSample, 1) },
        ]
    );
}

#[test]
fn pass_schedule_three_levels() {
    let passes = BloomNode::pass_schedule(3);
    let expected = vec![
        BloomPass { pipeline: BloomPipelineKind::Filter, bind_group: BloomBindGroup::Filter, target: view(BloomTexture::DownSample, 0) },
        BloomPass { pipeline: BloomPipelineKind::DownSample, bind_group: BloomBindGroup::DownSample(0), target: view(BloomTexture::DownSample, 1) },
        BloomPass { pipeline: BloomPipelineKind::DownSample, bind_group: BloomBindGroup::DownSample(1), target: view(BloomTexture::DownSample, 2) },
        BloomPass { pipeline: BloomPipelineKind::UpSample, bind_group: BloomBindGroup::UpSample(1), target: view(BloomTexture::UpSample, 1) },
        BloomPass { pipeline: BloomPipelineKind::UpSample, bind_group: BloomBindGroup::UpSample(0), target: view(BloomTexture::UpSample, 0) },
        BloomPass { pipeline: BloomPipelineKind::Apply, bind_group: BloomBindGroup::Apply, target: view(BloomTexture::Output, 0) },
    ];
    assert_eq!(passes, expected);
}

#[test]
fn pass_schedule_reads_follow_writes() {
    // Each pass reads only the target or levels written by an earlier pass.
    let mips = BloomNode::calculate_mips(1920, 1080);
    let passes = BloomNode::pass_schedule(mips);
    let down = BloomNode::down_sample_sources(mips);
    let up = BloomNode::up_sample_sources(mips);
    assert_eq!(passes.len(), 2 * mips as usize);
    for (j, pass) in passes.iter().enumerate() {
        let reads = match pass.bind_group {
            BloomBindGroup::Filter => vec![view(BloomTexture::Target, 0)],
            BloomBindGroup::DownSample(i) => vec![down[i as usize]],
            BloomBindGroup::UpSample(i) => vec![up[i as usize].source, up[i as usize].additional],
            BloomBindGroup::Apply => vec![view(BloomTexture::Target, 0), view(BloomTexture::UpSample, 0)],
        };
        for r in reads {
            if r.texture != BloomTexture::Target {
                assert!(passes[..j].iter().any(|p| p.target == r), "pass {} reads {:?} before it is written", j, r);
            }
        }
    }
}

#[test]
fn tone_mapping_uniforms_hold_mode() {
    let u = ToneMappingUniforms { tone_mapping: 2 };
    assert_eq!(u.tone_mapping, 2);
}

#[test]
fn post_processing_graph_ops() {
    let ops = PostProcessingPlugin.graph_ops();
    assert_eq!(
        ops,
        vec![
            GraphOp::AddNode("post_processing_dependencies"),
            GraphOp::AddNode("tone_mapping"),
            GraphOp::AddNode("bloom"),
            GraphOp::NodeEdge(GraphNode::RenderDependencies, GraphNode::Own(DEPENDENCIES)),
            GraphOp::NodeEdge(GraphNode::Own(DEPENDENCIES), GraphNode::Own(BLOOM)),
            GraphOp::NodeEdge(GraphNode::Own(DEPENDENCIES), GraphNode::Own(TONE_MAPPING)),
            GraphOp::SlotEdge(GraphNode::Hdr, GraphSlot::Texture, GraphNode::Own(BLOOM), GraphSlot::Own(BLOOM_TARGET)),
            GraphOp::SlotEdge(GraphNode::Own(BLOOM), GraphSlot::Own(BLOOM_OUTPUT), GraphNode::Own(TONE_MAPPING), GraphSlot::Own(TONE_MAPPING_HDR_TARGET)),
            GraphOp::SlotEdge(GraphNode::Input, GraphSlot::SurfaceTexture, GraphNode::Own(TONE_MAPPING), GraphSlot::Own(TONE_MAPPING_TARGET)),
        ]
    );
    assert_eq!(BLOOM_TARGET, "target");
    assert_eq!(BLOOM_OUTPUT, "output");
    assert_eq!(TONE_MAPPING_HDR_TARGET, "hdr_target");
}

#[test]
fn tone_mapping_binding_follows_hdr_view() {
    let mut node = ToneMappingNode::default();
    assert!(node.update_binding(3));
    assert!(!node.update_binding(3));
    assert!(node.update_binding(4));
    assert_eq!(node.binding_target, Some(4));
}
