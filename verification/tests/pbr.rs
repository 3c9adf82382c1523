use ike::pbr::{
    get_texture, materials_to_rebind, meshes_to_upload, AssetEvent, BatchResources, MaterialTextures, MeshBatches, MeshDraw, PbrPlugin,
    TextureSource, PBR_NODE,
};
use ike::post_processing::{PostProcessingPlugin, DEPENDENCIES};
use ike::render_graph::{GraphNode, GraphOp, GraphSlot};

fn all(index_count: u32) -> BatchResources {
    BatchResources { material_bound: true, has_position: true, has_normal: true, has_tangent: true, has_uv: true, index_count }
}

#[test]
fn batches_group_instances_by_mesh_and_material() {
    let mut batches: MeshBatches<u8> = MeshBatches::new();
    batches.push_instance((1, 10), 1);
    batches.push_instance((2, 10), 2);
    batches.push_instance((1, 10), 3);
    let b = batches.batches();
    assert_eq!(b.len(), 2);
    assert_eq!(b[0], ((1, 10), vec![1, 3]));
    assert_eq!(b[1], ((2, 10), vec![2]));
}

#[test]
fn clear_keeps_pairs() {
    let mut batches: MeshBatches<u8> = MeshBatches::new();
    batches.push_instance((1, 10), 1);
    batches.push_instance((2, 20), 2);
    batches.clear_instances();
    assert_eq!(batches.batches(), &vec![((1, 10), vec![]), ((2, 20), vec![])]);
}

#[test]
fn prepare_frame_replaces_instances() {
    let mut batches: MeshBatches<u8> = MeshBatches::new();
    batches.prepare_frame(&vec![((1, 1), 5), ((2, 2), 6)]);
    batches.prepare_frame(&vec![((2, 2), 7), ((3, 3), 8), ((2, 2), 9)]);
    assert_eq!(
        batches.batches(),
        &vec![((1, 1), vec![]), ((2, 2), vec![7, 9]), ((3, 3), vec![8])]
    );
}

#[test]
fn draws_skip_unbound_or_incomplete_batches() {
    let mut batches: MeshBatches<u8> = MeshBatches::new();
    batches.prepare_frame(&vec![((1, 1), 0), ((2, 2), 0), ((2, 2), 0), ((3, 3), 0), ((4, 4), 0)]);
    let res = vec![
        all(36),
        all(6),
        BatchResources { material_bound: false, ..all(3) },
        BatchResources { has_tangent: false, ..all(9) },
    ];
    assert_eq!(
        batches.draws(&res),
        vec![
            MeshDraw { mesh: 1, material: 1, index_count: 36, instances: 1 },
            MeshDraw { mesh: 2, material: 2, index_count: 6, instances: 2 },
        ]
    );
}

#[test]
fn contains_image_checks_every_slot() {
    let m = MaterialTextures { base_color: Some(1), metallic_roughness: None, emission: Some(3), normal_map: Some(4) };
    assert!(m.contains_image(1));
    assert!(m.contains_image(3));
    assert!(m.contains_image(4));
    assert!(!m.contains_image(2));
    let empty = MaterialTextures { base_color: None, metallic_roughness: None, emission: None, normal_map: None };
    assert!(!empty.contains_image(0));
}

#[test]
fn get_texture_falls_back() {
    assert_eq!(get_texture(Some(5), true), TextureSource::Image(5));
    assert_eq!(get_texture(Some(5), false), TextureSource::Fallback);
    assert_eq!(get_texture(None, true), TextureSource::Fallback);
}

#[test]
fn materials_to_rebind_after_events() {
    let materials = vec![
        (100, MaterialTextures { base_color: Some(1), metallic_roughness: None, emission: None, normal_map: None }),
        (200, MaterialTextures { base_color: None, metallic_roughness: Some(1), emission: None, normal_map: Some(2) }),
        (300, MaterialTextures { base_color: None, metallic_roughness: None, emission: None, normal_map: None }),
    ];
    let material_events = vec![AssetEvent::Created(300), AssetEvent::Removed(100), AssetEvent::Modified(200)];
    let image_events = vec![AssetEvent::Modified(1), AssetEvent::Removed(2), AssetEvent::Created(2)];
    assert_eq!(materials_to_rebind(&material_events, &image_events, &materials), vec![300, 200, 100, 200, 200]);
    assert!(materials_to_rebind(&vec![], &vec![AssetEvent::Created(9)], &materials).is_empty());
}

#[test]
fn pbr_graph_ops() {
    let ops = PbrPlugin.graph_ops();
    assert_eq!(ops.len(), 8);
    assert_eq!(ops[0], GraphOp::AddNode("pbr_node"));
    assert_eq!(ops[2], GraphOp::NodeEdge(GraphNode::Own(PBR_NODE), GraphNode::Own(DEPENDENCIES)));
    assert_eq!(
        ops[7],
        GraphOp::SlotEdge(GraphNode::Input, GraphSlot::Camera, GraphNode::Own("pbr_node"), GraphSlot::Own("camera"))
    );
}

#[test]
fn pbr_after_post_processing_adds_before_use() {
    let mut ops = PostProcessingPlugin.graph_ops();
    ops.extend(PbrPlugin.graph_ops());
    let mut added: Vec<&str> = Vec::new();
    for op in ops {
        match op {
            GraphOp::AddNode(n) => added.push(n),
            GraphOp::NodeEdge(a, b) | GraphOp::SlotEdge(a, _, b, _) => {
                for n in [a, b] {
                    if let GraphNode::Own(name) = n {
                        assert!(added.contains(&name), "{} used before it is added", name);
                    }
                }
            }
        }
    }
}

#[test]
fn meshes_to_upload_once_each() {
    assert_eq!(meshes_to_upload(&vec![3, 1, 3, 2, 1, 4], &vec![2]), vec![3, 1, 4]);
    assert!(meshes_to_upload(&vec![5, 5], &vec![5]).is_empty());
    assert!(meshes_to_upload(&vec![], &vec![1]).is_empty());
}
