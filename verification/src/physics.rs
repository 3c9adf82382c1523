//! Physics bookkeeping: entities packed into the user data of bodies and
//! colliders, the bodies and colliders to drop when their entity goes away,
//! rigid body options and the queue of collision events.
use vstd::prelude::*;
use crossbeam::queue::SegQueue;

verus! {

/// An entity of the world: a slot index and the generation of that slot.
#[derive(Clone, Copy, Debug, PartialEq, Eq, Hash)]
pub struct Entity {
    pub index: u32,
    pub generation: u32,
}

impl Entity {
    pub fn from_raw_parts(index: u32, generation: u32) -> (e: Entity)
        ensures
            e.index == index,
            e.generation == generation,
    {
        Entity { index, generation }
    }

    pub fn index(&self) -> (i: u32)
        ensures
            i == self.index,
    {
        self.index
    }

    pub fn generation(&self) -> (g: u32)
        ensures
            g == self.generation,
    {
        self.generation
    }
}

/// The user data under which an entity is stored: its index in the low 32
/// bits, its generation in the next 32.
pub open spec fn spec_to_user_data(e: Entity) -> int {
    e.index as int + e.generation as int * 0x1_0000_0000
}

/// Packs an entity into the user data of a body or collider.
pub fn to_user_data(entity: Entity) -> (data: u128)
    ensures
        data == spec_to_user_data(entity),
{
    let index = entity.index() as u128;
    let generation = entity.generation() as u128;
    assert((generation << 32u128) == generation * 0x1_0000_0000) by (bit_vector)
        requires
            generation < 0x1_0000_0000,
    ;
    index + (generation << 32u128)
}

/// Reads back the entity of a user data value: the low 32 bits give the
/// index, the next 32 the generation; higher bits are dropped.
pub fn from_user_data(data: u128) -> (e: Entity)
    ensures
        e.index == data % 0x1_0000_0000,
        e.generation == (data / 0x1_0000_0000) % 0x1_0000_0000,
{
    let index = data as u32;
    let high = data >> 32u128;
    let generation = high as u32;
    assert(index == data % 0x1_0000_0000) by (bit_vector)
        requires
            index == data as u32,
    ;
    assert(high == data / 0x1_0000_0000) by (bit_vector)
        requires
            high == data >> 32u128,
    ;
    assert(generation == high % 0x1_0000_0000) by (bit_vector)
        requires
            generation == high as u32,
    ;
    Entity::from_raw_parts(index, generation)
}

/// Reading back packed user data gives the entity that was packed.
pub proof fn lemma_user_data_round_trip(e: Entity)
    ensures
        spec_to_user_data(e) % 0x1_0000_0000 == e.index,
        (spec_to_user_data(e) / 0x1_0000_0000) % 0x1_0000_0000 == e.generation,
{
    let d = spec_to_user_data(e);
    assert(d % 0x1_0000_0000 == e.index as int) by (nonlinear_arith)
        requires
            d == e.index as int + e.generation as int * 0x1_0000_0000,
            0 <= e.index < 0x1_0000_0000,
    ;
    assert(d / 0x1_0000_0000 == e.generation as int) by (nonlinear_arith)
        requires
            d == e.index as int + e.generation as int * 0x1_0000_0000,
            0 <= e.index < 0x1_0000_0000,
    ;
}

/// User data below 2^64 is exactly the packing of the entity read from it.
pub proof fn lemma_user_data_unique(data: u128)
    requires
        data < 0x1_0000_0000_0000_0000,
    ensures
        spec_to_user_data(
            Entity {
                index: (data % 0x1_0000_0000) as u32,
                generation: ((data / 0x1_0000_0000) % 0x1_0000_0000) as u32,
            },
        ) == data,
{
    let lo = data % 0x1_0000_0000;
    let hi = data / 0x1_0000_0000;
    assert(hi < 0x1_0000_0000);
    assert(lo + hi * 0x1_0000_0000 == data) by (nonlinear_arith)
        requires
            lo == data % 0x1_0000_0000,
            hi == data / 0x1_0000_0000,
    ;
}

/// The entity that a body or collider with user data `d` belongs to.
pub open spec fn entity_of(d: u128) -> Entity {
    Entity { index: (d % 0x1_0000_0000) as u32, generation: ((d / 0x1_0000_0000) % 0x1_0000_0000) as u32 }
}

/// The object `o` (a handle and its user data) belongs to an entity that is
/// not among `alive`.
pub open spec fn orphaned<H>(alive: Seq<Entity>, o: (H, u128)) -> bool {
    !alive.contains(entity_of(o.1))
}

/// The handles of the objects whose entity is not among `alive`, in order.
pub open spec fn spec_removed<H>(objects: Seq<(H, u128)>, alive: Seq<Entity>) -> Seq<H> {
    objects.filter(|o: (H, u128)| orphaned(alive, o)).map_values(|o: (H, u128)| o.0)
}

proof fn lemma_filter_push<A>(s: Seq<A>, x: A, p: spec_fn(A) -> bool)
    ensures
        s.push(x).filter(p) == if p(x) {
            s.filter(p).push(x)
        } else {
            s.filter(p)
        },
{
    reveal_with_fuel(Seq::filter, 1);
    assert(s.push(x).drop_last() =~= s);
}

/// Whether `e` is among `alive`.
pub fn contains_entity(alive: &Vec<Entity>, e: Entity) -> (r: bool)
    ensures
        r == alive@.contains(e),
{
    let mut i: usize = 0;
    while i < alive.len()
        invariant
            i <= alive@.len(),
            forall|j: int| 0 <= j < i ==> alive@[j] != e,
        decreases alive@.len() - i,
    {
        let a = alive[i];
        if a.index == e.index && a.generation == e.generation {
            assert(alive@[i as int] == e);
            return true;
        }
        i = i + 1;
    }
    false
}

/// The handles of the bodies (or colliders) to remove: those whose user data
/// names an entity that no longer has a rigid body (or collider), in the
/// order the set lists them.
pub fn removed_handles<H: Copy>(objects: &Vec<(H, u128)>, alive: &Vec<Entity>) -> (r: Vec<H>)
    ensures
        r@ == spec_removed(objects@, alive@),
{
    let ghost pred = |o: (H, u128)| orphaned(alive@, o);
    let ghost f = |o: (H, u128)| o.0;
    let mut r: Vec<H> = Vec::new();
    let mut i: usize = 0;
    while i < objects.len()
        invariant
            i <= objects@.len(),
            pred == (|o: (H, u128)| orphaned(alive@, o)),
            f == (|o: (H, u128)| o.0),
            r@ == objects@.take(i as int).filter(pred).map_values(f),
        decreases objects@.len() - i,
    {
        let (h, d) = objects[i];
        proof {
            assert(objects@.take(i + 1) =~= objects@.take(i as int).push(objects@[i as int]));
            lemma_filter_push(objects@.take(i as int), objects@[i as int], pred);
        }
        let e = from_user_data(d);
        if !contains_entity(alive, e) {
            r.push(h);
            proof {
                assert(r@ =~= objects@.take(i + 1).filter(pred).map_values(f));
            }
        } else {
            proof {
                assert(r@ =~= objects@.take(i + 1).filter(pred).map_values(f));
            }
        }
        i = i + 1;
    }
    assert(objects@.take(objects@.len() as int) =~= objects@);
    r
}

/// Which rotation axes of a rigid body are locked.
#[derive(Clone, Copy, Debug, Default, PartialEq, Eq)]
pub struct LockAxis {
    pub x: bool,
    pub y: bool,
    pub z: bool,
}

/// A rigid body component. `V` is the engine's vector type and `S` its
/// scalar type.
#[derive(Clone, Debug)]
pub struct RigidBody<V, S> {
    pub linear_velocity: V,
    pub angular_velocity: V,
    pub linear_dampening: S,
    pub angular_dampening: S,
    pub lock_translation: bool,
    pub lock_rotation: LockAxis,
    pub continuous: bool,
    pub kinematic: bool,
}

/// The switches of a body: translation lock, rotation locks, continuous
/// collision detection and kinematic control.
pub open spec fn switches<V, S>(b: RigidBody<V, S>) -> (bool, LockAxis, bool, bool) {
    (b.lock_translation, b.lock_rotation, b.continuous, b.kinematic)
}

impl<V: Default, S: Default> RigidBody<V, S> {
    /// A dynamic body: at rest, undamped, nothing locked.
    pub fn dynamic() -> (b: Self)
        ensures
            switches(b) == (false, LockAxis { x: false, y: false, z: false }, false, false),
    {
        RigidBody {
            linear_velocity: V::default(),
            angular_velocity: V::default(),
            linear_dampening: S::default(),
            angular_dampening: S::default(),
            lock_translation: false,
            lock_rotation: LockAxis { x: false, y: false, z: false },
            continuous: false,
            kinematic: false,
        }
    }

    /// A kinematic body: like [`RigidBody::dynamic`] but moved by its transform.
    pub fn kinematic() -> (b: Self)
        ensures
            switches(b) == (false, LockAxis { x: false, y: false, z: false }, false, true),
    {
        let mut b = Self::dynamic();
        b.kinematic = true;
        b
    }
}

impl<V, S> RigidBody<V, S> {
    /// Locks (or frees) rotation about all three axes.
    pub fn with_rotation_lock(self, locked: bool) -> (b: Self)
        ensures
            b == (RigidBody { lock_rotation: LockAxis { x: locked, y: locked, z: locked }, ..self }),
    {
        let mut b = self;
        b.lock_rotation.x = locked;
        b.lock_rotation.y = locked;
        b.lock_rotation.z = locked;
        b
    }

    /// Locks (or frees) rotation about the x axis.
    pub fn with_lock_x(self, locked: bool) -> (b: Self)
        ensures
            b == (RigidBody { lock_rotation: LockAxis { x: locked, ..self.lock_rotation }, ..self }),
    {
        let mut b = self;
        b.lock_rotation.x = locked;
        b
    }

    /// Locks (or frees) rotation about the y axis.
    pub fn with_lock_y(self, locked: bool) -> (b: Self)
        ensures
            b == (RigidBody { lock_rotation: LockAxis { y: locked, ..self.lock_rotation }, ..self }),
    {
        let mut b = self;
        b.lock_rotation.y = locked;
        b
    }

    /// Locks (or frees) rotation about the z axis.
    pub fn with_lock_z(self, locked: bool) -> (b: Self)
        ensures
            b == (RigidBody { lock_rotation: LockAxis { z: locked, ..self.lock_rotation }, ..self }),
    {
        let mut b = self;
        b.lock_rotation.z = locked;
        b
    }

    /// Turns continuous collision detection on or off.
    pub fn with_continuous(self, continuous: bool) -> (b: Self)
        ensures
            b == (RigidBody { continuous, ..self }),
    {
        let mut b = self;
        b.continuous = continuous;
        b
    }
}

/// Marks a collider whose outline is drawn for debugging.
#[derive(Clone, Copy, Debug, PartialEq, Eq)]
pub struct DebugCollider;

/// The stages the physics plugin adds after the update stage.
#[derive(Clone, Copy, Debug, PartialEq, Eq)]
pub enum PhysicsStage {
    Physics,
    Step,
}

/// The sub-stages of the physics step, run in this order.
#[derive(Clone, Copy, Debug, PartialEq, Eq)]
pub enum SubStage {
    Remove,
    AddBodies,
    AddColliders,
    UpdateRapier,
    Step,
    UpdateIke,
}

/// The systems of the physics step.
#[derive(Clone, Copy, Debug, PartialEq, Eq)]
pub enum PhysicsSystem {
    RemoveBody,
    RemoveCollider,
    AddRigidBody,
    AddCollider,
    UpdateRapierRigidBody,
    PhysicsStep,
    UpdateIkePosition,
    UpdateIkeVelocity,
}

/// The physics step: its sub-stages in order, each with its systems.
pub open spec fn spec_step_schedule() -> Seq<(SubStage, Seq<PhysicsSystem>)> {
    seq![
        (SubStage::Remove, seq![PhysicsSystem::RemoveBody, PhysicsSystem::RemoveCollider]),
        (SubStage::AddBodies, seq![PhysicsSystem::AddRigidBody]),
        (SubStage::AddColliders, seq![PhysicsSystem::AddCollider]),
        (SubStage::UpdateRapier, seq![PhysicsSystem::UpdateRapierRigidBody]),
        (SubStage::Step, seq![PhysicsSystem::PhysicsStep]),
        (SubStage::UpdateIke, seq![PhysicsSystem::UpdateIkePosition, PhysicsSystem::UpdateIkeVelocity]),
    ]
}

/// The physics plugin.
#[derive(Clone, Copy, Debug, Default, PartialEq, Eq)]
pub struct PhysicsPlugin;

impl PhysicsPlugin {
    /// The schedule of the physics step: removal of bodies and colliders
    /// whose entities lost them, creation of new bodies then colliders,
    /// pushing changed components to the simulation, the simulation step,
    /// and reading positions and velocities back.
    pub fn step() -> (schedule: Vec<(SubStage, Vec<PhysicsSystem>)>)
        ensures
            schedule@.len() == spec_step_schedule().len(),
            forall|i: int|
                0 <= i < schedule@.len() ==> (#[trigger] schedule@[i]).0 == spec_step_schedule()[i].0
                    && schedule@[i].1@ == spec_step_schedule()[i].1,
    {
        let mut schedule: Vec<(SubStage, Vec<PhysicsSystem>)> = Vec::new();
        schedule.push((SubStage::Remove, vec![PhysicsSystem::RemoveBody, PhysicsSystem::RemoveCollider]));
        schedule.push((SubStage::AddBodies, vec![PhysicsSystem::AddRigidBody]));
        schedule.push((SubStage::AddColliders, vec![PhysicsSystem::AddCollider]));
        schedule.push((SubStage::UpdateRapier, vec![PhysicsSystem::UpdateRapierRigidBody]));
        schedule.push((SubStage::Step, vec![PhysicsSystem::PhysicsStep]));
        schedule.push(
            (SubStage::UpdateIke, vec![PhysicsSystem::UpdateIkePosition, PhysicsSystem::UpdateIkeVelocity]),
        );
        assert(schedule@[0].1@ =~= spec_step_schedule()[0].1);
        assert(schedule@[1].1@ =~= spec_step_schedule()[1].1);
        assert(schedule@[2].1@ =~= spec_step_schedule()[2].1);
        assert(schedule@[3].1@ =~= spec_step_schedule()[3].1);
        assert(schedule@[4].1@ =~= spec_step_schedule()[4].1);
        assert(schedule@[5].1@ =~= spec_step_schedule()[5].1);
        schedule
    }
}

/// How a rigid body moves: by the simulation, not at all, or as the game
/// places it.
#[derive(Clone, Copy, Debug, PartialEq, Eq)]
pub enum RigidBodyKind {
    Dynamic,
    Static,
    Kinematic,
}

impl Default for RigidBodyKind {
    fn default() -> (k: Self)
        ensures
            k == RigidBodyKind::Dynamic,
    {
        RigidBodyKind::Dynamic
    }
}

/// The simulation's body types that the kinds map to.
#[derive(Clone, Copy, Debug, PartialEq, Eq)]
pub enum BodyType {
    Dynamic,
    Fixed,
    KinematicPositionBased,
}

pub open spec fn spec_body_type(k: RigidBodyKind) -> BodyType {
    match k {
        RigidBodyKind::Dynamic => BodyType::Dynamic,
        RigidBodyKind::Static => BodyType::Fixed,
        RigidBodyKind::Kinematic => BodyType::KinematicPositionBased,
    }
}

impl RigidBodyKind {
    /// The simulation's body type for this kind.
    pub fn body_type(&self) -> (t: BodyType)
        ensures
            t == spec_body_type(*self),
    {
        match self {
            RigidBodyKind::Dynamic => BodyType::Dynamic,
            RigidBodyKind::Static => BodyType::Fixed,
            RigidBodyKind::Kinematic => BodyType::KinematicPositionBased,
        }
    }
}

/// One change to a simulated body, from the components of its entity.
#[derive(Clone, Copy, Debug, PartialEq, Eq)]
pub enum BodyUpdate {
    /// Switch the body to this type.
    SetBodyType(BodyType),
    /// Move a kinematic body to the entity's transform over the next step.
    SetNextKinematicPosition,
    /// Place the body at the entity's transform and wake it.
    SetPosition,
    /// Set the body's linear and angular velocity and wake it.
    SetVelocity,
}

/// The updates of one body, in order: its type when its kind changed, its
/// position when its transform changed (kinematic bodies move over the next
/// step, others are placed), its velocity when that changed.
pub open spec fn spec_body_updates(
    changed_kind: Option<RigidBodyKind>,
    transform_changed: bool,
    was_kinematic: bool,
    velocity_changed: bool,
) -> Seq<BodyUpdate> {
    let kinematic = match changed_kind {
        Some(k) => k == RigidBodyKind::Kinematic,
        None => was_kinematic,
    };
    (match changed_kind {
        Some(k) => seq![BodyUpdate::SetBodyType(spec_body_type(k))],
        None => Seq::empty(),
    }) + (if transform_changed {
        if kinematic {
            seq![BodyUpdate::SetNextKinematicPosition]
        } else {
            seq![BodyUpdate::SetPosition]
        }
    } else {
        Seq::empty()
    }) + (if velocity_changed {
        seq![BodyUpdate::SetVelocity]
    } else {
        Seq::empty()
    })
}

/// The updates of a body: when its kind changed, they begin by switching it
/// to that kind's body type (dynamic to dynamic, static to fixed, kinematic
/// to position-based kinematic), and otherwise never switch its type; when
/// its transform changed they move it once, over the next step exactly when
/// it is kinematic after the switch; when its velocity changed they end by
/// setting it; and there are no other updates.
pub proof fn lemma_body_updates_follow_changes(
    changed_kind: Option<RigidBodyKind>,
    transform_changed: bool,
    was_kinematic: bool,
    velocity_changed: bool,
)
    ensures ({
        let r = spec_body_updates(changed_kind, transform_changed, was_kinematic, velocity_changed);
        let kinematic = changed_kind == Some(RigidBodyKind::Kinematic) || (changed_kind is None && was_kinematic);
        &&& r.len() == (if changed_kind is Some { 1int } else { 0 }) + (if transform_changed { 1int } else { 0 })
            + (if velocity_changed { 1int } else { 0 })
        &&& changed_kind == Some(RigidBodyKind::Dynamic) ==> r[0] == BodyUpdate::SetBodyType(BodyType::Dynamic)
        &&& changed_kind == Some(RigidBodyKind::Static) ==> r[0] == BodyUpdate::SetBodyType(BodyType::Fixed)
        &&& changed_kind == Some(RigidBodyKind::Kinematic) ==> r[0] == BodyUpdate::SetBodyType(BodyType::KinematicPositionBased)
        &&& forall|i: int| 0 < i < r.len() ==> !(#[trigger] r[i] is SetBodyType)
        &&& changed_kind is None ==> forall|i: int| 0 <= i < r.len() ==> !(#[trigger] r[i] is SetBodyType)
        &&& transform_changed ==> r.contains(
            if kinematic { BodyUpdate::SetNextKinematicPosition } else { BodyUpdate::SetPosition },
        )
        &&& !transform_changed ==> !r.contains(BodyUpdate::SetPosition) && !r.contains(BodyUpdate::SetNextKinematicPosition)
        &&& velocity_changed ==> r.last() == BodyUpdate::SetVelocity
        &&& !velocity_changed ==> !r.contains(BodyUpdate::SetVelocity)
    }),
{
    let r = spec_body_updates(changed_kind, transform_changed, was_kinematic, velocity_changed);
    let kinematic = changed_kind == Some(RigidBodyKind::Kinematic) || (changed_kind is None && was_kinematic);
    let a: Seq<BodyUpdate> = match changed_kind {
        Some(k) => seq![BodyUpdate::SetBodyType(spec_body_type(k))],
        None => Seq::empty(),
    };
    let p = if kinematic { BodyUpdate::SetNextKinematicPosition } else { BodyUpdate::SetPosition };
    let b: Seq<BodyUpdate> = if transform_changed { seq![p] } else { Seq::empty() };
    let c: Seq<BodyUpdate> = if velocity_changed { seq![BodyUpdate::SetVelocity] } else { Seq::empty() };
    assert(r =~= a + b + c);
    if transform_changed {
        assert(r[a.len() as int] == p);
    }
    if !transform_changed {
        assert forall|i: int| 0 <= i < r.len() implies r[i] != BodyUpdate::SetPosition && r[i] != BodyUpdate::SetNextKinematicPosition by {
            if i < a.len() {
                assert(r[i] == a[i]);
            } else {
                assert(r[i] == c[i - a.len()]);
            }
        }
    }
    if !velocity_changed {
        assert forall|i: int| 0 <= i < r.len() implies r[i] != BodyUpdate::SetVelocity by {
            if i < a.len() {
                assert(r[i] == a[i]);
            } else {
                assert(r[i] == b[i - a.len()]);
            }
        }
    }
}

/// The updates to bring a simulated body in line with its entity:
/// `changed_kind` is the entity's kind when it changed, `was_kinematic`
/// whether the body is kinematic before the updates.
pub fn body_updates(
    changed_kind: Option<RigidBodyKind>,
    transform_changed: bool,
    was_kinematic: bool,
    velocity_changed: bool,
) -> (r: Vec<BodyUpdate>)
    ensures
        r@ == spec_body_updates(changed_kind, transform_changed, was_kinematic, velocity_changed),
        changed_kind == Some(RigidBodyKind::Dynamic) ==> r@[0] == BodyUpdate::SetBodyType(BodyType::Dynamic),
        changed_kind == Some(RigidBodyKind::Static) ==> r@[0] == BodyUpdate::SetBodyType(BodyType::Fixed),
        changed_kind == Some(RigidBodyKind::Kinematic) ==> r@[0] == BodyUpdate::SetBodyType(BodyType::KinematicPositionBased),
        changed_kind is None ==> forall|i: int| 0 <= i < r@.len() ==> !(#[trigger] r@[i] is SetBodyType),
{
    proof {
        lemma_body_updates_follow_changes(changed_kind, transform_changed, was_kinematic, velocity_changed);
    }
    let mut r: Vec<BodyUpdate> = Vec::new();
    let mut kinematic = was_kinematic;
    match changed_kind {
        Some(k) => {
            r.push(BodyUpdate::SetBodyType(k.body_type()));
            kinematic = match k {
                RigidBodyKind::Kinematic => true,
                _ => false,
            };
        },
        None => {},
    }
    if transform_changed {
        if kinematic {
            r.push(BodyUpdate::SetNextKinematicPosition);
        } else {
            r.push(BodyUpdate::SetPosition);
        }
    }
    if velocity_changed {
        r.push(BodyUpdate::SetVelocity);
    }
    assert(r@ =~= spec_body_updates(changed_kind, transform_changed, was_kinematic, velocity_changed));
    r
}

/// What the simulation holds for one collider of a collision: the user data
/// of the collider and, when it has a parent body still in the simulation,
/// that body's user data.
#[derive(Clone, Copy, Debug, PartialEq, Eq)]
pub struct ColliderData {
    pub collider: u128,
    pub body: Option<u128>,
}

/// The entities of one side of a collision: its rigid body and its collider.
#[derive(Clone, Copy, Debug, PartialEq, Eq)]
pub struct CollisionSide {
    pub rigid_body: Entity,
    pub collider: Entity,
}

/// The entities a collision is reported for: both colliders still exist and
/// both have a parent body; otherwise nothing is reported.
pub open spec fn spec_collision_sides(a: Option<ColliderData>, b: Option<ColliderData>) -> Option<(CollisionSide, CollisionSide)> {
    match (a, b) {
        (Some(ca), Some(cb)) => match (ca.body, cb.body) {
            (Some(ba), Some(bb)) => Some((
                CollisionSide { rigid_body: entity_of(ba), collider: entity_of(ca.collider) },
                CollisionSide { rigid_body: entity_of(bb), collider: entity_of(cb.collider) },
            )),
            _ => None,
        },
        _ => None,
    }
}

/// The entities of the two sides of a collision, from what the simulation
/// holds for its colliders.
pub fn collision_sides(a: Option<ColliderData>, b: Option<ColliderData>) -> (r: Option<(CollisionSide, CollisionSide)>)
    ensures
        r == spec_collision_sides(a, b),
{
    match (a, b) {
        (Some(ca), Some(cb)) => match (ca.body, cb.body) {
            (Some(ba), Some(bb)) => Some((
                CollisionSide { rigid_body: from_user_data(ba), collider: from_user_data(ca.collider) },
                CollisionSide { rigid_body: from_user_data(bb), collider: from_user_data(cb.collider) },
            )),
            _ => None,
        },
        _ => None,
    }
}

/// A collider of the simulation, by its slot index and generation.
#[derive(Clone, Copy, Debug, PartialEq, Eq, Hash)]
pub struct ColliderHandle {
    pub index: u32,
    pub generation: u32,
}

/// A collision event reported by the simulation step: whether contact
/// started (or stopped), and the two colliders.
#[derive(Clone, Copy, Debug, PartialEq, Eq)]
pub struct CollisionEvent {
    pub started: bool,
    pub a: ColliderHandle,
    pub b: ColliderHandle,
}

#[verifier::external_type_specification]
#[verifier::external_body]
#[verifier::reject_recursive_types(T)]
pub struct ExSegQueue<T>(SegQueue<T>);

/// The events a queue holds, from head to tail.
pub uninterp spec fn queued_events(q: SegQueue<CollisionEvent>) -> Seq<CollisionEvent>;

/// Creates a queue with `SegQueue::new`. Trusted: the queue starts empty.
#[verifier::external_body]
fn new_queue() -> (q: SegQueue<CollisionEvent>)
    ensures
        queued_events(q) == Seq::<CollisionEvent>::empty(),
{
    SegQueue::new()
}

/// Appends `event` with `SegQueue::push_mut`. Trusted: the event becomes
/// the queue's tail, the rest unchanged.
#[verifier::external_body]
fn push_event(q: &mut SegQueue<CollisionEvent>, event: CollisionEvent)
    ensures
        queued_events(*final(q)) == queued_events(*old(q)).push(event),
{
    q.push_mut(event)
}

/// Takes the head with `SegQueue::pop_mut`. Trusted: `None` and no change on
/// an empty queue, otherwise the head, removed from the queue.
#[verifier::external_body]
fn pop_event(q: &mut SegQueue<CollisionEvent>) -> (r: Option<CollisionEvent>)
    ensures
        queued_events(*old(q)).len() == 0 ==> r is None && queued_events(*final(q)) == queued_events(*old(q)),
        queued_events(*old(q)).len() > 0 ==> r == Some(queued_events(*old(q))[0])
            && queued_events(*final(q)) == queued_events(*old(q)).drop_first(),
{
    q.pop_mut()
}

/// Collects the collision events of a simulation step until they are processed.
pub struct EventManager {
    queue: SegQueue<CollisionEvent>,
}

impl EventManager {
    /// The events waiting, oldest first.
    pub closed spec fn pending(&self) -> Seq<CollisionEvent> {
        queued_events(self.queue)
    }

    pub fn new() -> (m: EventManager)
        ensures
            m.pending() == Seq::<CollisionEvent>::empty(),
    {
        EventManager { queue: new_queue() }
    }

    /// Records an event reported by the simulation.
    pub fn handle_collision_event(&mut self, event: CollisionEvent)
        ensures
            final(self).pending() == old(self).pending().push(event),
    {
        push_event(&mut self.queue, event);
    }

    /// Takes every waiting event, oldest first, for the collision data of
    /// each to be sent; nothing is left waiting.
    pub fn process_events(&mut self) -> (events: Vec<CollisionEvent>)
        ensures
            events@ == old(self).pending(),
            final(self).pending() == Seq::<CollisionEvent>::empty(),
    {
        let ghost start = self.pending();
        let mut events: Vec<CollisionEvent> = Vec::new();
        loop
            invariant
                start == old(self).pending(),
                start == events@ + self.pending(),
            decreases self.pending().len(),
        {
            match pop_event(&mut self.queue) {
                Some(e) => {
                    events.push(e);
                    assert(start =~= events@ + self.pending());
                },
                None => {
                    assert(start =~= events@);
                    return events;
                },
            }
        }
    }
}

} // verus!
