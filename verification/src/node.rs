//! Node stages: named lists of node functions, and named event stages keyed
//! by event type, each run in the order its functions were added.
use vstd::prelude::*;
use std::any::TypeId;
use crate::entries::{keys_distinct, map_of, lemma_map_of_absent, lemma_map_of_entry, lemma_map_of_update};

verus! {

#[verifier::external_type_specification]
#[verifier::external_body]
pub struct ExTypeId(TypeId);

/// Compares two type ids with `TypeId`'s `==`. Trusted: type ids are equal
/// exactly when they are the same value, that is, identify the same type.
#[verifier::external_body]
fn same_type(a: &TypeId, b: &TypeId) -> (r: bool)
    ensures
        r == (*a == *b),
{
    *a == *b
}

/// The type id of `E`, by `TypeId::of`. Trusted, and nothing is claimed of
/// the result: it identifies the type within one build of the program.
#[verifier::external_body]
fn type_id_of<E: ?Sized + 'static>() -> TypeId {
    TypeId::of::<E>()
}

/// The name of a node stage.
#[derive(Clone, Copy, Debug, PartialEq, Eq, Hash)]
pub struct NodeStageName(pub &'static str);

/// The name of a node event stage: the event type and the stage's name.
#[derive(Clone, Copy, Debug, PartialEq, Eq, Hash)]
pub struct NodeEventStageName {
    pub event_type: TypeId,
    pub name: &'static str,
}

fn same_name(a: &str, b: &str) -> (r: bool)
    ensures
        r == (a@ == b@),
{
    a.to_owned() == b.to_owned()
}

/// The functions of a node stage, in the order they run.
pub struct NodeStage<F> {
    functions: Vec<F>,
}

impl<F> View for NodeStage<F> {
    type V = Seq<F>;

    closed spec fn view(&self) -> Seq<F> {
        self.functions@
    }
}

impl<F> NodeStage<F> {
    pub fn new() -> (s: Self)
        ensures
            s@ == Seq::<F>::empty(),
    {
        NodeStage { functions: Vec::new() }
    }

    /// Appends a function; it runs after those added before it.
    pub fn add_fn(&mut self, func: F)
        ensures
            final(self)@ == old(self)@.push(func),
    {
        self.functions.push(func);
    }

    /// The functions, in the order they run.
    pub fn functions(&self) -> (r: &Vec<F>)
        ensures
            r@ == self@,
    {
        &self.functions
    }

    /// The functions, in the order they run, for running them.
    pub fn functions_mut(&mut self) -> (r: &mut Vec<F>)
        ensures
            r@ == old(self)@,
            final(self)@ == final(r)@,
    {
        &mut self.functions
    }
}

/// The functions of a node event stage, in the order they run.
pub struct NodeEventStage<G> {
    functions: Vec<G>,
}

impl<G> View for NodeEventStage<G> {
    type V = Seq<G>;

    closed spec fn view(&self) -> Seq<G> {
        self.functions@
    }
}

impl<G> NodeEventStage<G> {
    pub fn new() -> (s: Self)
        ensures
            s@ == Seq::<G>::empty(),
    {
        NodeEventStage { functions: Vec::new() }
    }

    /// Appends a function; it runs after those added before it.
    pub fn add_fn(&mut self, func: G)
        ensures
            final(self)@ == old(self)@.push(func),
    {
        self.functions.push(func);
    }

    /// The functions, in the order they run.
    pub fn functions(&self) -> (r: &Vec<G>)
        ensures
            r@ == self@,
    {
        &self.functions
    }

    /// The functions, in the order they run, for running them.
    pub fn functions_mut(&mut self) -> (r: &mut Vec<G>)
        ensures
            r@ == old(self)@,
            final(self)@ == final(r)@,
    {
        &mut self.functions
    }
}

/// Marks the event stages held type-erased by [`NodeStages`].
pub trait DynamicNodeEventStage {
}

impl<G> DynamicNodeEventStage for NodeEventStage<G> {
}

/// The node stages of the world: functions by stage name, and event
/// functions by event type and stage name.
pub struct NodeStages<F, G> {
    stages: Vec<(&'static str, NodeStage<F>)>,
    event_stages: Vec<((TypeId, &'static str), NodeEventStage<G>)>,
}

/// The list of stage entries as (name, functions) pairs.
pub open spec fn stage_entries<F>(v: Seq<(&'static str, NodeStage<F>)>) -> Seq<(Seq<char>, Seq<F>)> {
    v.map_values(|e: (&'static str, NodeStage<F>)| (e.0@, e.1@))
}

/// The list of event stage entries as ((type, name), functions) pairs.
pub open spec fn event_entries<G>(v: Seq<((TypeId, &'static str), NodeEventStage<G>)>) -> Seq<((TypeId, Seq<char>), Seq<G>)> {
    v.map_values(|e: ((TypeId, &'static str), NodeEventStage<G>)| ((e.0.0, e.0.1@), e.1@))
}

impl<F, G> NodeStages<F, G> {
    /// No stage name, and no (event type, stage name) pair, occurs twice.
    pub closed spec fn wf(&self) -> bool {
        &&& keys_distinct(stage_entries(self.stages@))
        &&& keys_distinct(event_entries(self.event_stages@))
    }

    /// The functions of each node stage, by stage name.
    pub closed spec fn stages(&self) -> Map<Seq<char>, Seq<F>> {
        map_of(stage_entries(self.stages@))
    }

    /// The functions of each node event stage, by event type and stage name.
    pub closed spec fn event_stages(&self) -> Map<(TypeId, Seq<char>), Seq<G>> {
        map_of(event_entries(self.event_stages@))
    }

    /// No stages.
    pub fn new() -> (s: Self)
        ensures
            s.wf(),
            s.stages() == Map::<Seq<char>, Seq<F>>::empty(),
            s.event_stages() == Map::<(TypeId, Seq<char>), Seq<G>>::empty(),
    {
        let s = NodeStages { stages: Vec::new(), event_stages: Vec::new() };
        assert(stage_entries(s.stages@) =~= Seq::empty());
        assert(event_entries(s.event_stages@) =~= Seq::empty());
        s
    }

    fn find_stage(&self, name: &str) -> (r: Option<usize>)
        ensures
            r matches Some(i) ==> i < self.stages@.len() && self.stages@[i as int].0@ == name@,
            r is None ==> forall|i: int| 0 <= i < self.stages@.len() ==> (#[trigger] self.stages@[i]).0@ != name@,
    {
        let mut i: usize = 0;
        while i < self.stages.len()
            invariant
                i <= self.stages@.len(),
                forall|j: int| 0 <= j < i ==> (#[trigger] self.stages@[j]).0@ != name@,
            decreases self.stages@.len() - i,
        {
            if same_name(self.stages[i].0, name) {
                return Some(i);
            }
            i = i + 1;
        }
        None
    }

    fn find_event_stage(&self, event_type: &TypeId, name: &str) -> (r: Option<usize>)
        ensures
            r matches Some(i) ==> i < self.event_stages@.len() && self.event_stages@[i as int].0.0
                == *event_type && self.event_stages@[i as int].0.1@ == name@,
            r is None ==> forall|i: int|
                0 <= i < self.event_stages@.len() ==> !((#[trigger] self.event_stages@[i]).0.0
                    == *event_type && self.event_stages@[i].0.1@ == name@),
    {
        let mut i: usize = 0;
        while i < self.event_stages.len()
            invariant
                i <= self.event_stages@.len(),
                forall|j: int|
                    0 <= j < i ==> !((#[trigger] self.event_stages@[j]).0.0 == *event_type
                        && self.event_stages@[j].0.1@ == name@),
            decreases self.event_stages@.len() - i,
        {
            if same_type(&self.event_stages[i].0.0, event_type) && same_name(self.event_stages[i].0.1, name) {
                return Some(i);
            }
            i = i + 1;
        }
        None
    }

    /// The stage of this name, if any function was added to it.
    pub fn get_stage(&self, name: &str) -> (r: Option<&NodeStage<F>>)
        requires
            self.wf(),
        ensures
            r is Some <==> self.stages().contains_key(name@),
            r matches Some(s) ==> s@ == self.stages()[name@],
    {
        match self.find_stage(name) {
            Some(i) => {
                proof {
                    lemma_map_of_entry(stage_entries(self.stages@), i as int);
                }
                Some(&self.stages[i].1)
            },
            None => {
                proof {
                    let es = stage_entries(self.stages@);
                    assert forall|j: int| 0 <= j < es.len() implies (#[trigger] es[j]).0 != name@ by {
                        assert(es[j].0 == self.stages@[j].0@);
                    }
                    lemma_map_of_absent(es, name@);
                }
                None
            },
        }
    }

    /// The stage of this name, if any function was added to it, to change
    /// its functions; no other stage changes.
    pub fn get_stage_mut(&mut self, name: &str) -> (r: Option<&mut NodeStage<F>>)
        requires
            old(self).wf(),
        ensures
            r is Some <==> old(self).stages().contains_key(name@),
            r matches Some(s) ==> {
                &&& s@ == old(self).stages()[name@]
                &&& final(self).stages() == old(self).stages().insert(name@, final(s)@)
            },
            r is None ==> final(self).stages() == old(self).stages(),
            final(self).event_stages() == old(self).event_stages(),
            final(self).wf(),
    {
        let ghost es = stage_entries(self.stages@);
        match self.find_stage(name) {
            Some(i) => {
                proof {
                    lemma_map_of_entry(es, i as int);
                }
                proof {
                    let v = self.stages@;
                    assert forall|e: (&'static str, NodeStage<F>)| #![trigger v.update(i as int, e)]
                        e.0 == v[i as int].0 implies {
                            &&& keys_distinct(stage_entries(v.update(i as int, e)))
                            &&& map_of(stage_entries(v.update(i as int, e))) == map_of(es).insert(name@, e.1@)
                        } by {
                        assert(stage_entries(v.update(i as int, e)) =~= es.update(i as int, (es[i as int].0, e.1@)));
                        lemma_map_of_update(es, i as int, e.1@);
                    }
                }
                Some(&mut self.stages[i].1)
            },
            None => {
                proof {
                    assert forall|j: int| 0 <= j < es.len() implies (#[trigger] es[j]).0 != name@ by {
                        assert(es[j].0 == self.stages@[j].0@);
                    }
                    lemma_map_of_absent(es, name@);
                }
                None
            },
        }
    }

    /// Appends `func` to the stage of this name, creating the stage when it
    /// has none yet; no other stage changes.
    pub fn add_stage_fn(&mut self, name: &'static str, func: F)
        requires
            old(self).wf(),
        ensures
            final(self).wf(),
            final(self).stages() == old(self).stages().insert(
                name@,
                if old(self).stages().contains_key(name@) {
                    old(self).stages()[name@].push(func)
                } else {
                    seq![func]
                },
            ),
            final(self).event_stages() == old(self).event_stages(),
    {
        let ghost es = stage_entries(self.stages@);
        match self.find_stage(name) {
            Some(i) => {
                proof {
                    lemma_map_of_entry(es, i as int);
                    lemma_map_of_update(es, i as int, es[i as int].1.push(func));
                }
                self.stages[i].1.add_fn(func);
                proof {
                    assert(stage_entries(self.stages@) =~= es.update(i as int, (es[i as int].0, es[i as int].1.push(func))));
                }
            },
            None => {
                proof {
                    assert forall|j: int| 0 <= j < es.len() implies (#[trigger] es[j]).0 != name@ by {
                        assert(es[j].0 == self.stages@[j].0@);
                    }
                    lemma_map_of_absent(es, name@);
                }
                let mut stage = NodeStage::new();
                stage.add_fn(func);
                self.stages.push((name, stage));
                proof {
                    assert(stage_entries(self.stages@) =~= es.push((name@, seq![func])));
                    assert(stage_entries(self.stages@).drop_last() =~= es);
                }
            },
        }
    }

    fn event_absent_proof(&self, event_type: &TypeId, name: &str)
        requires
            forall|i: int|
                0 <= i < self.event_stages@.len() ==> !((#[trigger] self.event_stages@[i]).0.0
                    == *event_type && self.event_stages@[i].0.1@ == name@),
        ensures
            !self.event_stages().contains_key((*event_type, name@)),
    {
        proof {
            let es = event_entries(self.event_stages@);
            assert forall|j: int| 0 <= j < es.len() implies (#[trigger] es[j]).0 != (*event_type, name@) by {
                assert(es[j].0 == (self.event_stages@[j].0.0, self.event_stages@[j].0.1@));
            }
            lemma_map_of_absent(es, (*event_type, name@));
        }
    }

    /// The event stage of this event type and name, if any function was
    /// added to it.
    pub fn get_event_stage_of(&self, event_type: &TypeId, name: &str) -> (r: Option<&NodeEventStage<G>>)
        requires
            self.wf(),
        ensures
            r is Some <==> self.event_stages().contains_key((*event_type, name@)),
            r matches Some(s) ==> s@ == self.event_stages()[(*event_type, name@)],
    {
        match self.find_event_stage(event_type, name) {
            Some(i) => {
                proof {
                    lemma_map_of_entry(event_entries(self.event_stages@), i as int);
                }
                Some(&self.event_stages[i].1)
            },
            None => {
                self.event_absent_proof(event_type, name);
                None
            },
        }
    }

    /// The event stage of this event type and name, if any function was
    /// added to it, to change its functions; no other stage changes.
    pub fn get_event_stage_mut_of(&mut self, event_type: &TypeId, name: &str) -> (r: Option<&mut NodeEventStage<G>>)
        requires
            old(self).wf(),
        ensures
            r is Some <==> old(self).event_stages().contains_key((*event_type, name@)),
            r matches Some(s) ==> {
                &&& s@ == old(self).event_stages()[(*event_type, name@)]
                &&& final(self).event_stages() == old(self).event_stages().insert((*event_type, name@), final(s)@)
            },
            r is None ==> final(self).event_stages() == old(self).event_stages(),
            final(self).stages() == old(self).stages(),
            final(self).wf(),
    {
        let ghost es = event_entries(self.event_stages@);
        match self.find_event_stage(event_type, name) {
            Some(i) => {
                proof {
                    lemma_map_of_entry(es, i as int);
                    let v = self.event_stages@;
                    assert forall|e: ((TypeId, &'static str), NodeEventStage<G>)| #![trigger v.update(i as int, e)]
                        e.0 == v[i as int].0 implies {
                            &&& keys_distinct(event_entries(v.update(i as int, e)))
                            &&& map_of(event_entries(v.update(i as int, e))) == map_of(es).insert((*event_type, name@), e.1@)
                        } by {
                        assert(event_entries(v.update(i as int, e)) =~= es.update(i as int, (es[i as int].0, e.1@)));
                        lemma_map_of_update(es, i as int, e.1@);
                    }
                }
                Some(&mut self.event_stages[i].1)
            },
            None => {
                self.event_absent_proof(event_type, name);
                None
            },
        }
    }

    /// Appends `func` to the event stage of this event type and name,
    /// creating the stage when it has none yet; no other stage changes.
    pub fn add_event_stage_fn(&mut self, event_type: TypeId, name: &'static str, func: G)
        requires
            old(self).wf(),
        ensures
            final(self).wf(),
            final(self).event_stages() == old(self).event_stages().insert(
                (event_type, name@),
                if old(self).event_stages().contains_key((event_type, name@)) {
                    old(self).event_stages()[(event_type, name@)].push(func)
                } else {
                    seq![func]
                },
            ),
            final(self).stages() == old(self).stages(),
    {
        let ghost es = event_entries(self.event_stages@);
        match self.find_event_stage(&event_type, name) {
            Some(i) => {
                proof {
                    lemma_map_of_entry(es, i as int);
                    lemma_map_of_update(es, i as int, es[i as int].1.push(func));
                }
                self.event_stages[i].1.add_fn(func);
                proof {
                    assert(event_entries(self.event_stages@) =~= es.update(i as int, (es[i as int].0, es[i as int].1.push(func))));
                }
            },
            None => {
                self.event_absent_proof(&event_type, name);
                let mut stage = NodeEventStage::new();
                stage.add_fn(func);
                self.event_stages.push(((event_type, name), stage));
                proof {
                    assert(event_entries(self.event_stages@) =~= es.push(((event_type, name@), seq![func])));
                    assert(event_entries(self.event_stages@).drop_last() =~= es);
                }
            },
        }
    }

    /// The event stage of event type `E` and this name, if any function was
    /// added to it.
    pub fn get_event_stage<E: 'static>(&mut self, name: &str) -> (r: Option<&NodeEventStage<G>>)
        requires
            old(self).wf(),
        ensures
            *final(self) == *old(self),
            exists|t: TypeId| {
                &&& (r is Some <==> #[trigger] old(self).event_stages().contains_key((t, name@)))
                &&& (r matches Some(s) ==> s@ == old(self).event_stages()[(t, name@)])
            },
            (forall|t: TypeId| !(#[trigger] old(self).event_stages().contains_key((t, name@)))) ==> r is None,
    {
        let event_type = type_id_of::<E>();
        let r = self.get_event_stage_of(&event_type, name);
        assert(r is Some <==> self.event_stages().contains_key((event_type, name@)));
        r
    }

    /// The event stage of event type `E` and this name, if any function was
    /// added to it, to change its functions; no other stage changes.
    pub fn get_event_stage_mut<E: 'static>(&mut self, name: &str) -> (r: Option<&mut NodeEventStage<G>>)
        requires
            old(self).wf(),
        ensures
            final(self).wf(),
            final(self).stages() == old(self).stages(),
            exists|t: TypeId| {
                &&& (r is Some <==> #[trigger] old(self).event_stages().contains_key((t, name@)))
                &&& (r matches Some(s) ==> {
                    &&& s@ == old(self).event_stages()[(t, name@)]
                    &&& final(self).event_stages() == old(self).event_stages().insert((t, name@), final(s)@)
                })
            },
            r is None ==> final(self).event_stages() == old(self).event_stages(),
            (forall|t: TypeId| !(#[trigger] old(self).event_stages().contains_key((t, name@)))) ==> r is None,
    {
        let event_type = type_id_of::<E>();
        self.get_event_stage_mut_of(&event_type, name)
    }

    /// Appends `func` to the event stage of event type `E` and this name,
    /// creating the stage when it has none yet; no other stage changes.
    pub fn add_event_fn<E: 'static>(&mut self, name: &'static str, func: G)
        requires
            old(self).wf(),
        ensures
            final(self).wf(),
            final(self).stages() == old(self).stages(),
            exists|t: TypeId| #[trigger] final(self).event_stages() == old(self).event_stages().insert(
                (t, name@),
                if old(self).event_stages().contains_key((t, name@)) {
                    old(self).event_stages()[(t, name@)].push(func)
                } else {
                    seq![func]
                },
            ),
    {
        let event_type = type_id_of::<E>();
        self.add_event_stage_fn(event_type, name, func);
    }
}

/// An engine stage a node stage runs in.
#[derive(Clone, Copy, Debug, PartialEq, Eq, Hash)]
pub enum EngineStage {
    Start,
    PreUpdate,
    Update,
    PostUpdate,
    End,
    PrePhysics,
    PostPhysics,
    PreRender,
    Render,
    PostRender,
}

/// Sets up the node stages of an app.
#[derive(Clone, Copy, Debug, Default)]
pub struct NodePlugin;

/// The node stages an app runs, each with the engine stage it runs in: the
/// core ones, then the physics ones where physics is built in, then the
/// render ones where rendering is.
pub open spec fn spec_stage_bindings(physics: bool, render: bool) -> Seq<(Seq<char>, EngineStage)> {
    seq![
        ("start"@, EngineStage::Start),
        ("pre_update"@, EngineStage::PreUpdate),
        ("update"@, EngineStage::Update),
        ("post_update"@, EngineStage::PostUpdate),
        ("end"@, EngineStage::End),
    ] + (if physics {
        seq![("pre_physics"@, EngineStage::PrePhysics), ("post_physics"@, EngineStage::PostPhysics)]
    } else {
        Seq::empty()
    }) + (if render {
        seq![
            ("pre_render"@, EngineStage::PreRender),
            ("render"@, EngineStage::Render),
            ("post_render"@, EngineStage::PostRender),
        ]
    } else {
        Seq::empty()
    })
}

/// The name of the node stage that runs in engine stage `s`: the stage's
/// own name in snake case.
pub open spec fn engine_stage_name(s: EngineStage) -> Seq<char> {
    match s {
        EngineStage::Start => "start"@,
        EngineStage::PreUpdate => "pre_update"@,
        EngineStage::Update => "update"@,
        EngineStage::PostUpdate => "post_update"@,
        EngineStage::End => "end"@,
        EngineStage::PrePhysics => "pre_physics"@,
        EngineStage::PostPhysics => "post_physics"@,
        EngineStage::PreRender => "pre_render"@,
        EngineStage::Render => "render"@,
        EngineStage::PostRender => "post_render"@,
    }
}

/// Whether an app has engine stage `s`: the core stages always, the physics
/// stages where physics is built in, the render stages where rendering is.
pub open spec fn engine_stage_present(s: EngineStage, physics: bool, render: bool) -> bool {
    match s {
        EngineStage::PrePhysics | EngineStage::PostPhysics => physics,
        EngineStage::PreRender | EngineStage::Render | EngineStage::PostRender => render,
        _ => true,
    }
}

/// Each node stage is bound to the engine stage of the same name, every
/// engine stage the app has gets its node stage, and no engine stage gets
/// two.
pub proof fn lemma_stage_bindings_by_name(physics: bool, render: bool)
    ensures ({
        let b = spec_stage_bindings(physics, render);
        &&& forall|i: int| 0 <= i < b.len() ==> (#[trigger] b[i]).0 == engine_stage_name(b[i].1)
        &&& forall|i: int| 0 <= i < b.len() ==> engine_stage_present((#[trigger] b[i]).1, physics, render)
        &&& forall|s: EngineStage| #[trigger] engine_stage_present(s, physics, render) ==> exists|i: int|
            0 <= i < b.len() && b[i].1 == s
        &&& forall|i: int, j: int| 0 <= i < j < b.len() ==> (#[trigger] b[i]).1 != (#[trigger] b[j]).1
    }),
{
    let b = spec_stage_bindings(physics, render);
    let core = seq![
        ("start"@, EngineStage::Start),
        ("pre_update"@, EngineStage::PreUpdate),
        ("update"@, EngineStage::Update),
        ("post_update"@, EngineStage::PostUpdate),
        ("end"@, EngineStage::End),
    ];
    let ph: Seq<(Seq<char>, EngineStage)> = if physics {
        seq![("pre_physics"@, EngineStage::PrePhysics), ("post_physics"@, EngineStage::PostPhysics)]
    } else {
        Seq::empty()
    };
    let rd: Seq<(Seq<char>, EngineStage)> = if render {
        seq![
            ("pre_render"@, EngineStage::PreRender),
            ("render"@, EngineStage::Render),
            ("post_render"@, EngineStage::PostRender),
        ]
    } else {
        Seq::empty()
    };
    assert(b =~= core + ph + rd);
    let p = ph.len() as int;
    assert forall|s: EngineStage| #[trigger] engine_stage_present(s, physics, render) implies exists|i: int|
        0 <= i < b.len() && b[i].1 == s by {
        match s {
            EngineStage::Start => assert(b[0].1 == s),
            EngineStage::PreUpdate => assert(b[1].1 == s),
            EngineStage::Update => assert(b[2].1 == s),
            EngineStage::PostUpdate => assert(b[3].1 == s),
            EngineStage::End => assert(b[4].1 == s),
            EngineStage::PrePhysics => assert(b[5].1 == s),
            EngineStage::PostPhysics => assert(b[6].1 == s),
            EngineStage::PreRender => assert(b[5 + p].1 == s),
            EngineStage::Render => assert(b[6 + p].1 == s),
            EngineStage::PostRender => assert(b[7 + p].1 == s),
        }
    }
}

impl NodePlugin {
    /// The node stages to add to the app, in the order they are added, each
    /// with the engine stage it runs in.
    pub fn stage_bindings(&self, physics: bool, render: bool) -> (r: Vec<(&'static str, EngineStage)>)
        ensures
            r@.map_values(|e: (&'static str, EngineStage)| (e.0@, e.1)) == spec_stage_bindings(physics, render),
            forall|i: int| 0 <= i < r@.len() ==> (#[trigger] r@[i]).0@ == engine_stage_name(r@[i].1),
            forall|i: int| 0 <= i < r@.len() ==> engine_stage_present((#[trigger] r@[i]).1, physics, render),
            forall|s: EngineStage| #[trigger] engine_stage_present(s, physics, render) ==> exists|i: int|
                0 <= i < r@.len() && r@[i].1 == s,
    {
        proof {
            lemma_stage_bindings_by_name(physics, render);
        }
        let mut r: Vec<(&'static str, EngineStage)> = Vec::new();
        r.push(("start", EngineStage::Start));
        r.push(("pre_update", EngineStage::PreUpdate));
        r.push(("update", EngineStage::Update));
        r.push(("post_update", EngineStage::PostUpdate));
        r.push(("end", EngineStage::End));
        if physics {
            r.push(("pre_physics", EngineStage::PrePhysics));
            r.push(("post_physics", EngineStage::PostPhysics));
        }
        if render {
            r.push(("pre_render", EngineStage::PreRender));
            r.push(("render", EngineStage::Render));
            r.push(("post_render", EngineStage::PostRender));
        }
        assert(r@.map_values(|e: (&'static str, EngineStage)| (e.0@, e.1)) =~= spec_stage_bindings(physics, render));
        proof {
            let b = spec_stage_bindings(physics, render);
            assert forall|i: int| 0 <= i < r@.len() implies (#[trigger] r@[i]).0@ == engine_stage_name(r@[i].1)
                && engine_stage_present(r@[i].1, physics, render) by {
                assert(b[i] == (r@[i].0@, r@[i].1));
            }
            assert forall|s: EngineStage| #[trigger] engine_stage_present(s, physics, render) implies exists|i: int|
                0 <= i < r@.len() && r@[i].1 == s by {
                let i = choose|i: int| 0 <= i < b.len() && b[i].1 == s;
                assert(b[i] == (r@[i].0@, r@[i].1));
            }
        }
        r
    }
}

} // verus!
