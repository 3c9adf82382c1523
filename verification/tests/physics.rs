use ike::physics::{
    body_updates, collision_sides, BodyType, BodyUpdate, ColliderData, CollisionSide, RigidBodyKind,
    contains_entity, from_user_data, removed_handles, to_user_data, ColliderHandle, CollisionEvent, DebugCollider,
    Entity, EventManager, LockAxis, PhysicsPlugin, PhysicsStage, PhysicsSystem, RigidBody, SubStage,
};

#[test]
fn user_data_packs_index_low_generation_high() {
    let e = Entity::from_raw_parts(7, 3);
    assert_eq!(e.index(), 7);
    assert_eq!(e.generation(), 3);
    assert_eq!(to_user_data(e), 3 * (1u128 << 32) + 7);
}

#[test]
fn user_data_round_trip() {
    for e in [Entity::from_raw_parts(0, 0), Entity::from_raw_parts(u32::MAX, 1), Entity::from_raw_parts(5, u32::MAX)] {
        assert_eq!(from_user_data(to_user_data(e)), e);
    }
}

#[test]
fn from_user_data_ignores_high_bits() {
    let data = (1u128 << 64) | (2u128 << 32) | 9;
    assert_eq!(from_user_data(data), Entity::from_raw_parts(9, 2));
}

#[test]
fn removed_handles_of_dead_entities() {
    let alive = vec![Entity::from_raw_parts(1, 0), Entity::from_raw_parts(2, 1)];
    let objects = vec![
        ('a', to_user_data(Entity::from_raw_parts(1, 0))),
        ('b', to_user_data(Entity::from_raw_parts(2, 0))),
        ('c', to_user_data(Entity::from_raw_parts(2, 1))),
        ('d', to_user_data(Entity::from_raw_parts(3, 0))),
    ];
    assert_eq!(removed_handles(&objects, &alive), vec!['b', 'd']);
    assert!(contains_entity(&alive, Entity::from_raw_parts(2, 1)));
    assert!(!contains_entity(&alive, Entity::from_raw_parts(2, 0)));
}

#[test]
fn rigid_body_builders() {
    let b: RigidBody<(i32, i32, i32), i32> = RigidBody::dynamic();
    assert!(!b.kinematic && !b.continuous && !b.lock_translation);
    assert_eq!(b.lock_rotation, LockAxis { x: false, y: false, z: false });
    let k: RigidBody<(i32, i32, i32), i32> = RigidBody::kinematic();
    assert!(k.kinematic);
    let locked = b.clone().with_rotation_lock(true);
    assert_eq!(locked.lock_rotation, LockAxis { x: true, y: true, z: true });
    let y = b.clone().with_lock_y(true).with_continuous(true);
    assert_eq!(y.lock_rotation, LockAxis { x: false, y: true, z: false });
    assert!(y.continuous);
    let xz = b.with_lock_x(true).with_lock_z(true).with_lock_x(false);
    assert_eq!(xz.lock_rotation, LockAxis { x: false, y: false, z: true });
}

#[test]
fn physics_step_schedule() {
    let s = PhysicsPlugin::step();
    let stages: Vec<SubStage> = s.iter().map(|(st, _)| *st).collect();
    assert_eq!(
        stages,
        vec![SubStage::Remove, SubStage::AddBodies, SubStage::AddColliders, SubStage::UpdateRapier, SubStage::Step, SubStage::UpdateIke]
    );
    assert_eq!(s[0].1, vec![PhysicsSystem::RemoveBody, PhysicsSystem::RemoveCollider]);
    assert_eq!(s[4].1, vec![PhysicsSystem::PhysicsStep]);
    assert_eq!(s[5].1, vec![PhysicsSystem::UpdateIkePosition, PhysicsSystem::UpdateIkeVelocity]);
    assert_ne!(PhysicsStage::Physics, PhysicsStage::Step);
    assert_eq!(DebugCollider, DebugCollider);
}

#[test]
fn collision_events_drain_in_order() {
    let h = |i| ColliderHandle { index: i, generation: 0 };
    let e1 = CollisionEvent { started: true, a: h(1), b: h(2) };
    let e2 = CollisionEvent { started: false, a: h(1), b: h(2) };
    let e3 = CollisionEvent { started: true, a: h(3), b: h(4) };
    let mut m = EventManager::new();
    m.handle_collision_event(e1);
    m.handle_collision_event(e2);
    assert_eq!(m.process_events(), vec![e1, e2]);
    m.handle_collision_event(e3);
    assert_eq!(m.process_events(), vec![e3]);
    assert!(m.process_events().is_empty());
}

#[test]
fn body_kinds_map_to_body_types() {
    assert_eq!(RigidBodyKind::default(), RigidBodyKind::Dynamic);
    assert_eq!(RigidBodyKind::Dynamic.body_type(), BodyType::Dynamic);
    assert_eq!(RigidBodyKind::Static.body_type(), BodyType::Fixed);
    assert_eq!(RigidBodyKind::Kinematic.body_type(), BodyType::KinematicPositionBased);
}

#[test]
fn body_updates_follow_changes() {
    assert!(body_updates(None, false, false, false).is_empty());
    assert_eq!(body_updates(None, true, false, false), vec![BodyUpdate::SetPosition]);
    assert_eq!(body_updates(None, true, true, true), vec![BodyUpdate::SetNextKinematicPosition, BodyUpdate::SetVelocity]);
    assert_eq!(
        body_updates(Some(RigidBodyKind::Kinematic), true, false, false),
        vec![BodyUpdate::SetBodyType(BodyType::KinematicPositionBased), BodyUpdate::SetNextKinematicPosition]
    );
    assert_eq!(
        body_updates(Some(RigidBodyKind::Static), true, true, false),
        vec![BodyUpdate::SetBodyType(BodyType::Fixed), BodyUpdate::SetPosition]
    );
}

#[test]
fn collision_sides_need_both_bodies() {
    let e = |i, g| to_user_data(Entity::from_raw_parts(i, g));
    let a = ColliderData { collider: e(1, 0), body: Some(e(2, 0)) };
    let b = ColliderData { collider: e(3, 1), body: Some(e(4, 1)) };
    assert_eq!(
        collision_sides(Some(a), Some(b)),
        Some((
            CollisionSide { rigid_body: Entity::from_raw_parts(2, 0), collider: Entity::from_raw_parts(1, 0) },
            CollisionSide { rigid_body: Entity::from_raw_parts(4, 1), collider: Entity::from_raw_parts(3, 1) },
        ))
    );
    assert_eq!(collision_sides(Some(a), Some(ColliderData { body: None, ..b })), None);
    assert_eq!(collision_sides(None, Some(b)), None);
}
