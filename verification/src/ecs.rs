//! The entity-component-system runtime: storage, scheduler and command
//! application, driven once per frame.
//!
//! Systems run strictly sequentially: every stage in the fixed stage
//! order, and within a stage every system in registration order.
//! Structural commands issued during a frame are drained and applied at
//! the frame boundary, in issue order.

use vstd::prelude::*;
use crate::commands::{commands_consistent, Command};
use crate::propagation::{compute_effective_transforms_system, should_update, world_matrix};
use crate::relationship::CHILD_OF;
use crate::render_graph::{RenderGraph, RenderPass};
use crate::sprite::Sprite;
use crate::storage::{
    bundle_lookup, has_table, sprites_of, table_of, EntityDefinition, ResourceValue, Storage,
    RENDER_GRAPH_RESOURCE, SPRITE_COMPONENT, TRANSFORM_CACHE_RESOURCE,
};
use crate::system::{Scheduler, Stage, System};
use crate::transform::TransformCache;
use crate::EntityId;

verus! {

/// A configuration error: a system's required resource is absent or of
/// the wrong type. Broken wiring of the engine, fatal for the frame.
#[derive(Clone, Copy, PartialEq, Eq, Structural, Debug)]
pub enum EcsError {
    MissingResource(u64),
}

/// The sprite sequence the prepare phase gathers from a storage.
pub open spec fn gathered_sprites(s: Storage) -> Seq<Sprite> {
    if has_table(s.tables@, SPRITE_COMPONENT) {
        sprites_of(table_of(s.tables@, SPRITE_COMPONENT).entries@)
    } else {
        Seq::<Sprite>::empty()
    }
}

/// Whether the resource a system needs is present and of the right
/// type; a frame whose schedule holds an unmet system is rejected
/// before any system runs.
pub open spec fn system_requirement_met(s: Storage, sys: System) -> bool {
    match sys {
        System::Noop => true,
        System::ComputeEffectiveTransforms => s.resource_spec(TRANSFORM_CACHE_RESOURCE) matches Some(
            ResourceValue::TransformCache(_),
        ),
        System::ClearRenderGraph | System::AddClearPass | System::AddDrawSpritesPass
            | System::PreparePasses => s.resource_spec(RENDER_GRAPH_RESOURCE) matches Some(
            ResourceValue::RenderGraph(_),
        ),
    }
}

/// Everything of a storage except the render-graph and transform-cache
/// resources is unchanged.
pub open spec fn same_but_frame_resources(s1: Storage, s2: Storage) -> bool {
    &&& s2.tables@ == s1.tables@
    &&& s2.relationships@ == s1.relationships@
    &&& s2.next_id == s1.next_id
    &&& forall|key: u64|
        key != TRANSFORM_CACHE_RESOURCE && key != RENDER_GRAPH_RESOURCE
            ==> s2.resource_spec(key) == s1.resource_spec(key)
}

/// How one system run turns storage `s1` into storage `s2`.
pub open spec fn system_step(s1: Storage, sys: System, s2: Storage) -> bool {
    match sys {
        System::Noop => s2 == s1,
        System::ComputeEffectiveTransforms => {
            let c0 = s1.resource_spec(TRANSFORM_CACHE_RESOURCE)->0->TransformCache_0;
            if s1.relationship_spec(CHILD_OF) is Some {
                let g = s1.relationship_spec(CHILD_OF)->0;
                &&& same_but_frame_resources(s1, s2)
                &&& s2.resource_spec(RENDER_GRAPH_RESOURCE) == s1.resource_spec(
                    RENDER_GRAPH_RESOURCE,
                )
                &&& s2.resource_spec(TRANSFORM_CACHE_RESOURCE) matches Some(
                    ResourceValue::TransformCache(c1),
                ) && forall|id: EntityId|
                    c1.matrix_of(id as int) == if should_update(s1.tables@, g, id) {
                        world_matrix(s1.tables@, g, c0, id, g.edges@.len() as nat)
                    } else {
                        c0.matrix_of(id as int)
                    }
            } else {
                s2 == s1
            }
        },
        System::ClearRenderGraph => {
            &&& same_but_frame_resources(s1, s2)
            &&& s2.resource_spec(TRANSFORM_CACHE_RESOURCE) == s1.resource_spec(
                TRANSFORM_CACHE_RESOURCE,
            )
            &&& s2.resource_spec(RENDER_GRAPH_RESOURCE) matches Some(
                ResourceValue::RenderGraph(g2),
            ) && g2.passes@.len() == 0 && g2.prepared_sprites@.len() == 0
        },
        System::AddClearPass => {
            let g1 = s1.resource_spec(RENDER_GRAPH_RESOURCE)->0->RenderGraph_0;
            &&& same_but_frame_resources(s1, s2)
            &&& s2.resource_spec(TRANSFORM_CACHE_RESOURCE) == s1.resource_spec(
                TRANSFORM_CACHE_RESOURCE,
            )
            &&& s2.resource_spec(RENDER_GRAPH_RESOURCE) matches Some(
                ResourceValue::RenderGraph(g2),
            ) && g2.passes@ == g1.passes@.push(RenderPass::Clear) && g2.prepared_sprites@
                == g1.prepared_sprites@
        },
        System::AddDrawSpritesPass => {
            let g1 = s1.resource_spec(RENDER_GRAPH_RESOURCE)->0->RenderGraph_0;
            &&& same_but_frame_resources(s1, s2)
            &&& s2.resource_spec(TRANSFORM_CACHE_RESOURCE) == s1.resource_spec(
                TRANSFORM_CACHE_RESOURCE,
            )
            &&& s2.resource_spec(RENDER_GRAPH_RESOURCE) matches Some(
                ResourceValue::RenderGraph(g2),
            ) && g2.passes@ == g1.passes@.push(RenderPass::DrawSprites) && g2.prepared_sprites@
                == g1.prepared_sprites@
        },
        System::PreparePasses => {
            let g1 = s1.resource_spec(RENDER_GRAPH_RESOURCE)->0->RenderGraph_0;
            &&& same_but_frame_resources(s1, s2)
            &&& s2.resource_spec(TRANSFORM_CACHE_RESOURCE) == s1.resource_spec(
                TRANSFORM_CACHE_RESOURCE,
            )
            &&& s2.resource_spec(RENDER_GRAPH_RESOURCE) matches Some(
                ResourceValue::RenderGraph(g2),
            ) && g2.passes@ == g1.passes@ && g2.prepared_sprites@ == gathered_sprites(s1)
        },
    }
}

/// How applying one command turns storage and scheduler `(s1, h1)`
/// into `(s2, h2)`.
pub open spec fn command_step(
    s1: Storage,
    h1: Scheduler,
    cmd: Command,
    s2: Storage,
    h2: Scheduler,
) -> bool {
    match cmd {
        Command::InsertEntity(ie) => {
            let def = ie.entity_definition;
            &&& h2 == h1
            &&& s2.next_id == s1.next_id + 1
            &&& forall|kind: u64|
                (#[trigger] bundle_lookup(def.components@, kind)) is Some ==> s2.component_spec(
                    kind,
                    s1.next_id,
                ) == bundle_lookup(def.components@, kind) && s2.dirty_spec(kind, s1.next_id)
            &&& forall|kind: u64, o: EntityId|
                o != s1.next_id ==> s2.component_spec(kind, o) == s1.component_spec(kind, o)
                    && s2.dirty_spec(kind, o) == s1.dirty_spec(kind, o)
            &&& s2.resources@ == s1.resources@
            &&& s2.relationships@ == s1.relationships@
        },
        Command::DeleteEntity(de) => {
            let id = de.entity_id;
            &&& h2 == h1
            &&& forall|kind: u64|
                s2.component_spec(kind, id) is None && !s2.dirty_spec(kind, id)
            &&& forall|kind: u64, o: EntityId|
                o != id ==> s2.component_spec(kind, o) == s1.component_spec(kind, o)
                    && s2.dirty_spec(kind, o) == s1.dirty_spec(kind, o)
            &&& s2.next_id == s1.next_id
            &&& s2.resources@ == s1.resources@
            &&& s2.relationships@.len() == s1.relationships@.len()
            &&& forall|i: int|
                0 <= i < s1.relationships@.len() ==> (#[trigger] s2.relationships@[i]).0
                    == s1.relationships@[i].0 && s2.relationships@[i].1.edges@
                    == crate::relationship::without_incident(s1.relationships@[i].1.edges@, id)
        },
        Command::InsertResource(ir) => {
            &&& h2 == h1
            &&& s2.resource_spec(ir.key) == Some(ir.resource)
            &&& forall|k2: u64| k2 != ir.key ==> s2.resource_spec(k2) == s1.resource_spec(k2)
            &&& s2.tables@ == s1.tables@
            &&& s2.relationships@ == s1.relationships@
            &&& s2.next_id == s1.next_id
        },
        Command::RegisterSystem(rs) => {
            &&& s2 == s1
            &&& h2.stage_systems(rs.stage) == h1.stage_systems(rs.stage).push(rs.system)
            &&& forall|other: Stage|
                other != rs.stage ==> h2.stage_systems(other) == h1.stage_systems(other)
        },
    }
}

/// A run of every scheduled system turned `e1` into `e2`: some chain
/// of storages steps through the schedule in order — every stage in the
/// fixed stage order, within a stage every system in registration
/// order — and the scheduler itself is untouched.
pub open spec fn systems_chain(e1: Ecs, e2: Ecs) -> bool {
    &&& e2.scheduler == e1.scheduler
    &&& exists|states: Seq<Storage>|
        {
            &&& states.len() == e1.scheduler.schedule().len() + 1
            &&& states.first() == e1.storage
            &&& states.last() == e2.storage
            &&& forall|j: int|
                0 <= j < e1.scheduler.schedule().len() ==> system_step(
                    #[trigger] states[j],
                    e1.scheduler.schedule()[j],
                    states[j + 1],
                )
        }
}

/// Applying the drained commands turned `e1` into `e2`: some chain of
/// states steps through the command list in issue order, first issued
/// first applied.
pub open spec fn commands_chain(e1: Ecs, cmds: Seq<Command>, e2: Ecs) -> bool {
    exists|states: Seq<Ecs>|
        {
            &&& states.len() == cmds.len() + 1
            &&& states.first() == e1
            &&& states.last() == e2
            &&& forall|j: int|
                0 <= j < cmds.len() ==> command_step(
                    (#[trigger] states[j]).storage,
                    states[j].scheduler,
                    cmds[j],
                    states[j + 1].storage,
                    states[j + 1].scheduler,
                )
        }
}

/// The runtime: storage, the per-frame scheduler, and nothing else.
#[derive(Clone, PartialEq, Eq, Debug)]
pub struct Ecs {
    pub storage: Storage,
    pub scheduler: Scheduler,
}

impl Ecs {
    /// The runtime invariant: the storage invariant.
    pub open spec fn well_formed(&self) -> bool {
        self.storage.well_formed()
    }

    /// An empty runtime: empty storage, empty schedule.
    pub fn new() -> (r: Ecs)
        ensures
            r.well_formed(),
            r.storage.next_id == 0,
            r.storage.tables@.len() == 0,
            r.storage.resources@.len() == 0,
            r.storage.relationships@.len() == 0,
            r.scheduler.schedule().len() == 0,
    {
        Ecs { storage: Storage::new(), scheduler: Scheduler::new() }
    }

    /// Allocates a new entity with the given bundle; see
    /// [`Storage::insert`].
    pub fn insert(&mut self, def: EntityDefinition) -> (id: EntityId)
        requires
            old(self).well_formed(),
            old(self).storage.next_id < usize::MAX,
            def.consistent(),
        ensures
            final(self).well_formed(),
            command_step(
                old(self).storage,
                old(self).scheduler,
                Command::InsertEntity(crate::commands::InsertEntity { entity_definition: def }),
                final(self).storage,
                final(self).scheduler,
            ),
            id == old(self).storage.next_id,
            !old(self).storage.alive(id),
            final(self).scheduler == old(self).scheduler,
    {
        proof {
            crate::storage::lemma_fresh_id_not_alive(old(self).storage);
        }
        self.storage.insert(def)
    }

    /// Deletes an entity everywhere; see [`Storage::delete`].
    pub fn delete(&mut self, id: EntityId)
        requires
            old(self).well_formed(),
        ensures
            final(self).well_formed(),
            command_step(
                old(self).storage,
                old(self).scheduler,
                Command::DeleteEntity(crate::commands::DeleteEntity { entity_id: id }),
                final(self).storage,
                final(self).scheduler,
            ),
            final(self).scheduler == old(self).scheduler,
    {
        self.storage.delete(id);
    }

    /// Installs a resource; see [`Storage::insert_resource`].
    pub fn insert_resource(&mut self, key: u64, value: ResourceValue)
        requires
            old(self).well_formed(),
        ensures
            final(self).well_formed(),
            final(self).storage.resource_spec(key) == Some(value),
            forall|k2: u64|
                k2 != key ==> final(self).storage.resource_spec(k2) == old(self).storage.resource_spec(k2),
            final(self).storage.tables@ == old(self).storage.tables@,
            final(self).storage.relationships@ == old(self).storage.relationships@,
            final(self).storage.next_id == old(self).storage.next_id,
            final(self).scheduler == old(self).scheduler,
    {
        self.storage.insert_resource(key, value);
    }

    /// Registers a relationship kind; see
    /// [`Storage::define_relationship`].
    pub fn define_relationship(&mut self, kind: u64)
        requires
            old(self).well_formed(),
        ensures
            final(self).well_formed(),
            final(self).storage.relationship_spec(kind) is Some,
            old(self).storage.relationship_spec(kind) is None ==> (final(self).storage.relationship_spec(kind)->0).edges@.len() == 0,
            old(self).storage.relationship_spec(kind) is Some ==> final(self).storage == old(self).storage,
            forall|k2: u64|
                k2 != kind ==> final(self).storage.relationship_spec(k2) == old(self).storage.relationship_spec(k2),
            final(self).storage.tables@ == old(self).storage.tables@,
            final(self).storage.resources@ == old(self).storage.resources@,
            final(self).storage.next_id == old(self).storage.next_id,
            final(self).scheduler == old(self).scheduler,
    {
        self.storage.define_relationship(kind);
    }

    /// Registers a system under a stage, appending to that stage's
    /// ordered list.
    pub fn register_system(&mut self, stage: Stage, system: System)
        ensures
            final(self).storage == old(self).storage,
            final(self).scheduler.stage_systems(stage) == old(self).scheduler.stage_systems(
                stage,
            ).push(system),
            forall|other: Stage|
                other != stage ==> final(self).scheduler.stage_systems(other) == old(self).scheduler.stage_systems(other),
    {
        self.scheduler.register_system(stage, system);
    }

    /// Clears every per-frame dirty flag; see
    /// [`Storage::clear_dirty_flags`].
    pub fn clear_dirty_flags(&mut self)
        requires
            old(self).well_formed(),
        ensures
            final(self).well_formed(),
            forall|kind: u64, id: EntityId| !final(self).storage.dirty_spec(kind, id),
            forall|kind: u64, id: EntityId|
                final(self).storage.component_spec(kind, id) == old(self).storage.component_spec(
                    kind,
                    id,
                ),
            final(self).storage.next_id == old(self).storage.next_id,
            final(self).storage.resources@ == old(self).storage.resources@,
            final(self).storage.relationships@ == old(self).storage.relationships@,
            final(self).scheduler == old(self).scheduler,
    {
        self.storage.clear_dirty_flags();
    }

    /// Whether the resource `sys` needs is wired.
    fn requirement_met(&self, sys: System) -> (b: bool)
        requires
            self.well_formed(),
        ensures
            b == system_requirement_met(self.storage, sys),
    {
        match sys {
            System::Noop => true,
            System::ComputeEffectiveTransforms => match self.storage.resource(
                TRANSFORM_CACHE_RESOURCE,
            ) {
                Some(rv) => match rv {
                    ResourceValue::TransformCache(_) => true,
                    _ => false,
                },
                None => false,
            },
            _ => match self.storage.resource(RENDER_GRAPH_RESOURCE) {
                Some(rv) => match rv {
                    ResourceValue::RenderGraph(_) => true,
                    _ => false,
                },
                None => false,
            },
        }
    }

    /// Runs one system immediately, outside the schedule: the path for
    /// the one-shot init system. Fails, changing nothing, exactly when
    /// the system's required resource is not wired.
    pub fn run_single_run_system(&mut self, sys: System) -> (r: Result<(), EcsError>)
        requires
            old(self).well_formed(),
        ensures
            final(self).well_formed(),
            final(self).scheduler == old(self).scheduler,
            final(self).storage.next_id == old(self).storage.next_id,
            r is Ok <==> system_requirement_met(old(self).storage, sys),
            r is Ok ==> system_step(old(self).storage, sys, final(self).storage),
            r is Err ==> *final(self) == *old(self),
    {
        if !self.requirement_met(sys) {
            let key = match sys {
                System::ComputeEffectiveTransforms => TRANSFORM_CACHE_RESOURCE,
                _ => RENDER_GRAPH_RESOURCE,
            };
            return Err(EcsError::MissingResource(key));
        }
        match sys {
            System::Noop => Ok(()),
            System::ComputeEffectiveTransforms => {
                let has_graph = match self.storage.relationship(CHILD_OF) {
                    Some(_) => true,
                    None => false,
                };
                if !has_graph {
                    return Ok(());
                }
                let taken = self.storage.take_resource(TRANSFORM_CACHE_RESOURCE);
                match taken {
                    Some(ResourceValue::TransformCache(mut cache)) => {
                        let ghost s1 = old(self).storage;
                        match self.storage.relationship(CHILD_OF) {
                            Some(g) => {
                                proof {
                                    assert(self.storage.relationship_spec(CHILD_OF)
                                        == s1.relationship_spec(CHILD_OF));
                                    assert(self.storage.tables@ == s1.tables@);
                                }
                                compute_effective_transforms_system(&self.storage, g, &mut cache);
                            },
                            None => {},
                        }
                        self.storage.insert_resource(
                            TRANSFORM_CACHE_RESOURCE,
                            ResourceValue::TransformCache(cache),
                        );
                        Ok(())
                    },
                    _ => Ok(()),
                }
            },
            System::ClearRenderGraph => {
                let taken = self.storage.take_resource(RENDER_GRAPH_RESOURCE);
                match taken {
                    Some(ResourceValue::RenderGraph(mut graph)) => {
                        graph.clear();
                        self.storage.insert_resource(
                            RENDER_GRAPH_RESOURCE,
                            ResourceValue::RenderGraph(graph),
                        );
                        Ok(())
                    },
                    _ => Ok(()),
                }
            },
            System::AddClearPass => {
                let taken = self.storage.take_resource(RENDER_GRAPH_RESOURCE);
                match taken {
                    Some(ResourceValue::RenderGraph(mut graph)) => {
                        graph.add_pass(RenderPass::Clear);
                        self.storage.insert_resource(
                            RENDER_GRAPH_RESOURCE,
                            ResourceValue::RenderGraph(graph),
                        );
                        Ok(())
                    },
                    _ => Ok(()),
                }
            },
            System::AddDrawSpritesPass => {
                let taken = self.storage.take_resource(RENDER_GRAPH_RESOURCE);
                match taken {
                    Some(ResourceValue::RenderGraph(mut graph)) => {
                        graph.add_pass(RenderPass::DrawSprites);
                        self.storage.insert_resource(
                            RENDER_GRAPH_RESOURCE,
                            ResourceValue::RenderGraph(graph),
                        );
                        Ok(())
                    },
                    _ => Ok(()),
                }
            },
            System::PreparePasses => {
                let taken = self.storage.take_resource(RENDER_GRAPH_RESOURCE);
                match taken {
                    Some(ResourceValue::RenderGraph(mut graph)) => {
                        let sprites = self.storage.gather_sprites();
                        proof {
                            assert(self.storage.tables@ == old(self).storage.tables@);
                        }
                        graph.prepare(sprites);
                        self.storage.insert_resource(
                            RENDER_GRAPH_RESOURCE,
                            ResourceValue::RenderGraph(graph),
                        );
                        Ok(())
                    },
                    _ => Ok(()),
                }
            },
        }
    }

    /// Applies one structural command to the runtime, consuming it.
    pub fn apply_command(&mut self, cmd: Command)
        requires
            old(self).well_formed(),
            cmd is InsertEntity ==> cmd->InsertEntity_0.entity_definition.consistent() && old(
                self,
            ).storage.next_id < usize::MAX,
        ensures
            final(self).well_formed(),
            command_step(
                old(self).storage,
                old(self).scheduler,
                cmd,
                final(self).storage,
                final(self).scheduler,
            ),
            final(self).storage.next_id <= old(self).storage.next_id + 1,
    {
        match cmd {
            Command::InsertEntity(ie) => {
                self.storage.insert(ie.entity_definition);
            },
            Command::DeleteEntity(de) => {
                self.storage.delete(de.entity_id);
            },
            Command::InsertResource(ir) => {
                self.storage.insert_resource(ir.key, ir.resource);
            },
            Command::RegisterSystem(rs) => {
                self.scheduler.register_system(rs.stage, rs.system);
            },
        }
    }

    /// Applies a drained command list in issue order: the first command
    /// issued is the first applied, and every later command sees the
    /// effect of every earlier one.
    pub fn apply_commands(&mut self, cmds: Vec<Command>)
        requires
            old(self).well_formed(),
            commands_consistent(cmds@),
            old(self).storage.next_id + cmds@.len() <= usize::MAX,
        ensures
            final(self).well_formed(),
            commands_chain(*old(self), cmds@, *final(self)),
    {
        let ghost all = cmds@;
        let mut pending = cmds;
        let ghost mut states: Seq<Ecs> = seq![*self];
        let mut k: usize = 0;
        while pending.len() > 0
            invariant
                k + pending@.len() == all.len(),
                pending@ == all.subrange(k as int, all.len() as int),
                commands_consistent(all),
                self.well_formed(),
                self.storage.next_id <= old(self).storage.next_id + k,
                old(self).storage.next_id + all.len() <= usize::MAX,
                states.len() == k + 1,
                states.first() == *old(self),
                states.last() == *self,
                forall|j: int|
                    0 <= j < k ==> command_step(
                        (#[trigger] states[j]).storage,
                        states[j].scheduler,
                        all[j],
                        states[j + 1].storage,
                        states[j + 1].scheduler,
                    ),
            decreases pending@.len(),
        {
            let cmd = pending.remove(0);
            proof {
                assert(cmd == all[k as int]);
                assert(pending@ =~= all.subrange(k + 1, all.len() as int));
            }
            self.apply_command(cmd);
            proof {
                states = states.push(*self);
            }
            k += 1;
        }
        proof {
            assert(commands_chain(*old(self), all, *final(self)));
        }
    }

    /// Runs one full scheduler pass: every stage in the fixed stage
    /// order, within a stage every system in registration order. The
    /// frame is validated first: if any scheduled system's required
    /// resource is missing, the pass fails with that resource's key and
    /// nothing runs.
    pub fn run_systems(&mut self) -> (r: Result<(), EcsError>)
        requires
            old(self).well_formed(),
        ensures
            final(self).well_formed(),
            final(self).scheduler == old(self).scheduler,
            final(self).storage.next_id == old(self).storage.next_id,
            r is Ok <==> (forall|j: int|
                0 <= j < old(self).scheduler.schedule().len() ==> system_requirement_met(
                    old(self).storage,
                    #[trigger] old(self).scheduler.schedule()[j],
                )),
            r is Ok ==> systems_chain(*old(self), *final(self)),
            r is Err ==> *final(self) == *old(self),
    {
        let plan = self.collect_schedule();
        let mut v: usize = 0;
        while v < plan.len()
            invariant
                old(self).well_formed(),
                *self == *old(self),
                plan@ == old(self).scheduler.schedule(),
                v <= plan@.len(),
                forall|j: int|
                    0 <= j < v ==> system_requirement_met(
                        old(self).storage,
                        #[trigger] plan@[j],
                    ),
            decreases plan@.len() - v,
        {
            if !self.requirement_met(plan[v]) {
                let key = match plan[v] {
                    System::ComputeEffectiveTransforms => TRANSFORM_CACHE_RESOURCE,
                    _ => RENDER_GRAPH_RESOURCE,
                };
                return Err(EcsError::MissingResource(key));
            }
            v += 1;
        }
        let ghost mut states: Seq<Storage> = seq![self.storage];
        let mut k: usize = 0;
        while k < plan.len()
            invariant
                k <= plan@.len(),
                plan@ == old(self).scheduler.schedule(),
                self.well_formed(),
                self.scheduler == old(self).scheduler,
                self.storage.next_id == old(self).storage.next_id,
                forall|j: int|
                    0 <= j < plan@.len() ==> system_requirement_met(
                        self.storage,
                        #[trigger] plan@[j],
                    ),
                states.len() == k + 1,
                states.first() == old(self).storage,
                states.last() == self.storage,
                forall|j: int|
                    0 <= j < k ==> system_step(#[trigger] states[j], plan@[j], states[j + 1]),
            decreases plan@.len() - k,
        {
            let sys = plan[k];
            let ghost pre = self.storage;
            let outcome = self.run_single_run_system(sys);
            proof {
                assert(outcome is Ok);
                states = states.push(self.storage);
                assert forall|j: int|
                    0 <= j < plan@.len() implies system_requirement_met(
                    self.storage,
                    #[trigger] plan@[j],
                ) by {
                    lemma_step_keeps_requirements(pre, sys, self.storage);
                }
            }
            k += 1;
        }
        proof {
            assert(systems_chain(*old(self), *final(self)));
        }
        Ok(())
    }

    /// The full schedule of this frame as a list.
    fn collect_schedule(&self) -> (r: Vec<System>)
        ensures
            r@ == self.scheduler.schedule(),
    {
        let mut out: Vec<System> = Vec::new();
        self.append_stage(&mut out, Stage::Update);
        self.append_stage(&mut out, Stage::Render);
        self.append_stage(&mut out, Stage::FinalizeRender);
        proof {
            assert(out@ =~= self.scheduler.schedule());
        }
        out
    }

    /// Appends one stage's systems, in registration order.
    fn append_stage(&self, out: &mut Vec<System>, stage: Stage)
        ensures
            final(out)@ == old(out)@ + self.scheduler.stage_systems(stage),
    {
        let list = match stage {
            Stage::Update => &self.scheduler.update,
            Stage::Render => &self.scheduler.render,
            Stage::FinalizeRender => &self.scheduler.finalize_render,
        };
        let mut i: usize = 0;
        proof {
            assert(old(out)@ + list@.subrange(0, 0) =~= old(out)@);
        }
        while i < list.len()
            invariant
                i <= list@.len(),
                list@ == self.scheduler.stage_systems(stage),
                out@ == old(out)@ + list@.subrange(0, i as int),
            decreases list@.len() - i,
        {
            out.push(list[i]);
            proof {
                assert(out@ =~= old(out)@ + list@.subrange(0, i + 1));
            }
            i += 1;
        }
        proof {
            assert(list@.subrange(0, list@.len() as int) =~= list@);
        }
    }
}

/// Whether a system's requirement is met depends only on the
/// transform-cache and render-graph resources.
pub proof fn lemma_requirements_from_frame_resources(s1: Storage, s2: Storage)
    requires
        s2.resource_spec(TRANSFORM_CACHE_RESOURCE) == s1.resource_spec(TRANSFORM_CACHE_RESOURCE),
        s2.resource_spec(RENDER_GRAPH_RESOURCE) == s1.resource_spec(RENDER_GRAPH_RESOURCE),
    ensures
        forall|sys: System|
            #[trigger] system_requirement_met(s2, sys) == system_requirement_met(s1, sys),
{
}

/// Every system run keeps the transform-cache and render-graph
/// resources present and rightly typed, so a system whose own
/// requirement was met neither breaks nor creates any system's
/// requirement: a validated schedule stays valid while it runs.
pub proof fn lemma_step_keeps_requirements(s1: Storage, stepped: System, s2: Storage)
    requires
        system_step(s1, stepped, s2),
        system_requirement_met(s1, stepped),
    ensures
        forall|sys: System|
            #[trigger] system_requirement_met(s2, sys) == system_requirement_met(s1, sys),
{
}

} // verus!
