use ike::light::{
    shadow_passes, LightPlugin, RawLights, ShadowDraw, ShadowMesh, DIRECTIONAL_LIGHT_SHADOW_MAP_SIZE, LIGHT_NODE,
    MAX_DIRECTIONAL_LIGHTS,
};
use ike::render_graph::{GraphNode, GraphOp};

#[test]
fn light_constants() {
    assert_eq!(MAX_DIRECTIONAL_LIGHTS, 8);
    assert_eq!(DIRECTIONAL_LIGHT_SHADOW_MAP_SIZE, 4096);
    assert_eq!(LIGHT_NODE, "light_node");
}

#[test]
fn raw_lights_start_empty() {
    let lights: RawLights<u32> = RawLights::new();
    assert_eq!(lights.directional_light_count(), 0);
    assert!(lights.directional_lights().is_empty());
}

#[test]
fn push_keeps_order() {
    let mut lights = RawLights::new();
    lights.push_directional_light(10u32);
    lights.push_directional_light(20u32);
    assert_eq!(lights.directional_light_count(), 2);
    assert_eq!(lights.directional_lights(), &vec![10, 20]);
}

#[test]
fn push_keeps_one_fewer_than_slots() {
    // Only while one more light still leaves a slot free is it stored: seven of eight.
    let mut lights = RawLights::new();
    for i in 0..12u32 {
        lights.push_directional_light(i);
    }
    assert_eq!(lights.directional_light_count(), 7);
    assert_eq!(lights.directional_lights(), &vec![0, 1, 2, 3, 4, 5, 6]);
}

#[test]
fn shadow_passes_one_per_light() {
    let meshes = vec![
        ShadowMesh { has_buffers: true, has_position: true, index_count: 36 },
        ShadowMesh { has_buffers: false, has_position: true, index_count: 6 },
        ShadowMesh { has_buffers: true, has_position: false, index_count: 12 },
        ShadowMesh { has_buffers: true, has_position: true, index_count: 3 },
    ];
    let passes = shadow_passes(2, &meshes);
    assert_eq!(passes.len(), 2);
    for (i, pass) in passes.iter().enumerate() {
        assert_eq!(pass.layer, i as u32);
        assert_eq!(
            pass.draws,
            vec![ShadowDraw { mesh: 0, index_count: 36 }, ShadowDraw { mesh: 3, index_count: 3 }]
        );
    }
}

#[test]
fn shadow_passes_capped_at_slots() {
    let passes = shadow_passes(20, &vec![]);
    assert_eq!(passes.len(), 8);
    assert_eq!(passes[7].layer, 7);
    assert!(passes[7].draws.is_empty());
    assert!(shadow_passes(0, &vec![ShadowMesh { has_buffers: true, has_position: true, index_count: 1 }]).is_empty());
}

#[test]
fn light_graph_ops() {
    assert_eq!(
        LightPlugin.graph_ops(),
        vec![
            GraphOp::AddNode("light_node"),
            GraphOp::NodeEdge(GraphNode::Own("light_node"), GraphNode::RenderDependencies),
        ]
    );
}
