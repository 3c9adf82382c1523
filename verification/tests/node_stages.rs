use ike::node::{EngineStage, NodeEventStage, NodePlugin, NodeStage, NodeStages, NodeStageName, NodeEventStageName};
use std::any::TypeId;

#[test]
fn stage_functions_run_in_order_added() {
    let mut stages: NodeStages<u32, u8> = NodeStages::new();
    stages.add_stage_fn("update", 1);
    stages.add_stage_fn("start", 2);
    stages.add_stage_fn("update", 3);
    assert_eq!(stages.get_stage("update").unwrap().functions(), &vec![1, 3]);
    assert_eq!(stages.get_stage("start").unwrap().functions(), &vec![2]);
    assert!(stages.get_stage("end").is_none());
}

#[test]
fn get_stage_mut_changes_only_that_stage() {
    let mut stages: NodeStages<u32, u8> = NodeStages::new();
    stages.add_stage_fn("update", 1);
    stages.add_stage_fn("end", 2);
    stages.get_stage_mut("update").unwrap().add_fn(4);
    assert!(stages.get_stage_mut("missing").is_none());
    assert_eq!(stages.get_stage("update").unwrap().functions(), &vec![1, 4]);
    assert_eq!(stages.get_stage("end").unwrap().functions(), &vec![2]);
}

#[test]
fn event_stages_keyed_by_event_type_and_name() {
    let mut stages: NodeStages<u32, u8> = NodeStages::new();
    stages.add_event_fn::<u64>("hit", 1);
    stages.add_event_fn::<i64>("hit", 2);
    stages.add_event_fn::<u64>("hit", 3);
    assert_eq!(stages.get_event_stage::<u64>("hit").unwrap().functions(), &vec![1, 3]);
    assert_eq!(stages.get_event_stage::<i64>("hit").unwrap().functions(), &vec![2]);
    assert!(stages.get_event_stage::<u32>("hit").is_none());
    assert!(stages.get_event_stage::<u64>("miss").is_none());
    let t = TypeId::of::<i64>();
    assert_eq!(stages.get_event_stage_of(&t, "hit").unwrap().functions(), &vec![2]);
    stages.get_event_stage_mut::<i64>("hit").unwrap().add_fn(5);
    assert_eq!(stages.get_event_stage_of(&t, "hit").unwrap().functions(), &vec![2, 5]);
    assert!(stages.get_stage("hit").is_none());
}

#[test]
fn add_event_stage_fn_by_type_id() {
    let mut stages: NodeStages<u32, u8> = NodeStages::new();
    let t = TypeId::of::<String>();
    stages.add_event_stage_fn(t, "changed", 9);
    assert_eq!(stages.get_event_stage::<String>("changed").unwrap().functions(), &vec![9]);
    assert!(stages.get_event_stage_mut_of(&TypeId::of::<u8>(), "changed").is_none());
}

#[test]
fn stage_values() {
    let mut s: NodeStage<u8> = NodeStage::new();
    s.add_fn(1);
    s.functions_mut().push(2);
    assert_eq!(s.functions(), &vec![1, 2]);
    let mut e: NodeEventStage<u8> = NodeEventStage::new();
    e.add_fn(7);
    assert_eq!(e.functions(), &vec![7]);
    assert_eq!(NodeStageName("update"), NodeStageName("update"));
    let n = NodeEventStageName { event_type: TypeId::of::<u8>(), name: "a" };
    assert_eq!(n, NodeEventStageName { event_type: TypeId::of::<u8>(), name: "a" });
}

#[test]
fn node_plugin_stage_bindings() {
    let core = NodePlugin.stage_bindings(false, false);
    assert_eq!(
        core,
        vec![
            ("start", EngineStage::Start),
            ("pre_update", EngineStage::PreUpdate),
            ("update", EngineStage::Update),
            ("post_update", EngineStage::PostUpdate),
            ("end", EngineStage::End),
        ]
    );
    let all = NodePlugin.stage_bindings(true, true);
    assert_eq!(all.len(), 10);
    assert_eq!(all[5], ("pre_physics", EngineStage::PrePhysics));
    assert_eq!(all[6], ("post_physics", EngineStage::PostPhysics));
    assert_eq!(all[9], ("post_render", EngineStage::PostRender));
    let render = NodePlugin.stage_bindings(false, true);
    assert_eq!(render[5], ("pre_render", EngineStage::PreRender));
}
