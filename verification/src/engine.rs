//! The engine: the runtime, the command queue, and the frame driver.
//!
//! One frame is one call of [`Engine::update`]: the delta-time resource
//! is installed, the per-frame dirty flags are cleared, the one-shot
//! init system runs if it never ran, every scheduled system runs, and
//! the commands queued during the frame are drained and applied.

use vstd::prelude::*;
use crate::commands::{commands_consistent, CommandQueue};
use crate::ecs::{
    commands_chain, lemma_requirements_from_frame_resources, lemma_step_keeps_requirements,
    system_requirement_met, system_step, systems_chain, Ecs, EcsError,
};
use crate::input::{input_applied, InputEvent, InputState};
use crate::relationship::CHILD_OF;
use crate::storage::{
    ResourceValue, DELTA_TIME_RESOURCE, INPUT_STATE_RESOURCE, TRANSFORM_CACHE_RESOURCE,
};
use crate::system::{Stage, System};
use crate::transform::TransformCache;
use crate::math::identity_spec;
use crate::EntityId;

verus! {

/// The frame prologue turned runtime `e1` into `e2`: the delta-time
/// resource holds `dt`, every dirty flag is cleared, and every
/// component, relationship and other resource is as it was.
pub open spec fn frame_begun(e1: Ecs, dt: i64, e2: Ecs) -> bool {
    &&& e2.scheduler == e1.scheduler
    &&& forall|kind: u64, id: EntityId| !e2.storage.dirty_spec(kind, id)
    &&& forall|kind: u64, id: EntityId|
        e2.storage.component_spec(kind, id) == e1.storage.component_spec(kind, id)
    &&& e2.storage.resource_spec(DELTA_TIME_RESOURCE) == Some(ResourceValue::DeltaTime(dt))
    &&& forall|key: u64|
        key != DELTA_TIME_RESOURCE ==> e2.storage.resource_spec(key) == e1.storage.resource_spec(
            key,
        )
    &&& e2.storage.relationships@ == e1.storage.relationships@
    &&& e2.storage.next_id == e1.storage.next_id
}

/// The engine: the runtime, the queue of structural commands issued
/// during the frame, and the one-shot init system.
#[derive(Clone, PartialEq, Eq, Debug)]
pub struct Engine {
    pub application_title: &'static str,
    pub ecs: Ecs,
    pub queue: CommandQueue,
    pub init_system: System,
    pub init_system_ran: bool,
}

impl Engine {
    /// The engine invariant: the runtime invariant, and a queue of
    /// well-typed bundles.
    pub open spec fn well_formed(&self) -> bool {
        &&& self.ecs.well_formed()
        &&& commands_consistent(self.queue.commands@)
    }

    /// A fresh builder with the default title and no init system.
    pub fn builder() -> (r: EngineBuilder)
        ensures
            r.application_title@ == "Tuber application"@,
            r.init_system is None,
    {
        EngineBuilder { application_title: "Tuber application", init_system: None }
    }

    /// The application title the engine was built with.
    pub fn application_title(&self) -> (r: &'static str)
        ensures
            r == self.application_title,
    {
        self.application_title
    }

    /// Forwards one input event to the input-state resource, outside
    /// the scheduler; fails, changing nothing, exactly when that
    /// resource is not wired.
    pub fn on_input(&mut self, event: InputEvent) -> (r: Result<(), EcsError>)
        requires
            old(self).well_formed(),
        ensures
            final(self).well_formed(),
            r is Ok <==> old(self).ecs.storage.resource_spec(INPUT_STATE_RESOURCE) matches Some(
                ResourceValue::InputState(_),
            ),
            r is Err ==> *final(self) == *old(self),
            r is Ok ==> {
                &&& final(self).ecs.storage.resource_spec(INPUT_STATE_RESOURCE) matches Some(
                    ResourceValue::InputState(s2),
                ) && input_applied(
                    old(self).ecs.storage.resource_spec(INPUT_STATE_RESOURCE)->0->InputState_0,
                    event,
                    s2,
                )
                &&& forall|key: u64|
                    key != INPUT_STATE_RESOURCE ==> final(self).ecs.storage.resource_spec(key)
                        == old(self).ecs.storage.resource_spec(key)
                &&& final(self).ecs.storage.tables@ == old(self).ecs.storage.tables@
                &&& final(self).ecs.storage.relationships@ == old(self).ecs.storage.relationships@
                &&& final(self).ecs.storage.next_id == old(self).ecs.storage.next_id
                &&& final(self).ecs.scheduler == old(self).ecs.scheduler
                &&& final(self).queue == old(self).queue
                &&& final(self).init_system_ran == old(self).init_system_ran
            },
    {
        let present = match self.ecs.storage.resource(INPUT_STATE_RESOURCE) {
            Some(rv) => match rv {
                ResourceValue::InputState(_) => true,
                _ => false,
            },
            None => false,
        };
        if !present {
            return Err(EcsError::MissingResource(INPUT_STATE_RESOURCE));
        }
        let taken = self.ecs.storage.take_resource(INPUT_STATE_RESOURCE);
        match taken {
            Some(ResourceValue::InputState(mut state)) => {
                state.on_input(event);
                self.ecs.storage.insert_resource(
                    INPUT_STATE_RESOURCE,
                    ResourceValue::InputState(state),
                );
                Ok(())
            },
            _ => Err(EcsError::MissingResource(INPUT_STATE_RESOURCE)),
        }
    }

    /// Runs exactly one frame: installs the delta-time resource, clears
    /// every dirty flag, runs the init system once ever, runs every
    /// scheduled system in stage and registration order, then drains
    /// the command queue and applies every queued command in issue
    /// order. Fails when the init system (if still due) or a scheduled
    /// system misses its required resource; a failed frame stops there,
    /// with no system of a failed schedule run and no command applied.
    pub fn update(&mut self, delta_time: i64) -> (r: Result<(), EcsError>)
        requires
            old(self).well_formed(),
            old(self).ecs.storage.next_id + old(self).queue.commands@.len() <= usize::MAX,
        ensures
            final(self).well_formed(),
            final(self).application_title == old(self).application_title,
            final(self).init_system == old(self).init_system,
            r is Ok <==> ((old(self).init_system_ran || system_requirement_met(
                old(self).ecs.storage,
                old(self).init_system,
            )) && (forall|j: int|
                0 <= j < old(self).ecs.scheduler.schedule().len() ==> system_requirement_met(
                    old(self).ecs.storage,
                    #[trigger] old(self).ecs.scheduler.schedule()[j],
                ))),
            r is Ok ==> final(self).init_system_ran && final(self).queue.commands@.len() == 0
                && exists|a: Ecs, b: Ecs, c: Ecs|
                {
                    &&& frame_begun(old(self).ecs, delta_time, a)
                    &&& if old(self).init_system_ran {
                        b == a
                    } else {
                        system_step(a.storage, old(self).init_system, b.storage) && b.scheduler
                            == a.scheduler
                    }
                    &&& systems_chain(b, c)
                    &&& commands_chain(c, old(self).queue.commands@, final(self).ecs)
                },
    {
        self.ecs.insert_resource(
            DELTA_TIME_RESOURCE,
            ResourceValue::DeltaTime(delta_time),
        );
        self.ecs.clear_dirty_flags();
        let ghost a = self.ecs;
        proof {
            lemma_requirements_from_frame_resources(old(self).ecs.storage, self.ecs.storage);
        }
        if !self.init_system_ran {
            match self.ecs.run_single_run_system(self.init_system) {
                Ok(_) => {
                    proof {
                        lemma_step_keeps_requirements(
                            a.storage,
                            old(self).init_system,
                            self.ecs.storage,
                        );
                    }
                    self.init_system_ran = true;
                },
                Err(e) => {
                    return Err(e);
                },
            }
        }
        let ghost b = self.ecs;
        match self.ecs.run_systems() {
            Ok(_) => {},
            Err(e) => {
                return Err(e);
            },
        }
        let ghost c = self.ecs;
        let cmds = self.queue.drain();
        self.ecs.apply_commands(cmds);
        proof {
            assert(frame_begun(old(self).ecs, delta_time, a));
            assert(systems_chain(b, c));
        }
        Ok(())
    }
}

/// Builds an engine: wires the input state, the transform cache and the
/// child-of relationship, and registers the transform-propagation
/// system at the render stage.
#[derive(Clone, PartialEq, Eq, Debug)]
pub struct EngineBuilder {
    pub application_title: &'static str,
    pub init_system: Option<System>,
}

impl EngineBuilder {
    /// Sets the application title.
    pub fn with_application_title(&mut self, application_title: &'static str)
        ensures
            final(self).application_title == application_title,
            final(self).init_system == old(self).init_system,
    {
        self.application_title = application_title;
    }

    /// Sets the one-shot init system, run before the first frame's
    /// stages.
    pub fn with_init_system(&mut self, init_system: System)
        ensures
            final(self).init_system == Some(init_system),
            final(self).application_title == old(self).application_title,
    {
        self.init_system = Some(init_system);
    }

    /// Builds the engine: a fresh runtime holding the input state, an
    /// identity-filled transform cache and the empty child-of graph,
    /// with the transform-propagation system registered at the render
    /// stage, the configured init system (or a no-op) not yet run, and
    /// an empty command queue.
    pub fn build(&mut self) -> (r: Engine)
        ensures
            r.well_formed(),
            r.application_title == old(self).application_title,
            r.init_system == match old(self).init_system {
                Some(sys) => sys,
                None => System::Noop,
            },
            !r.init_system_ran,
            r.queue.commands@.len() == 0,
            r.ecs.storage.resource_spec(INPUT_STATE_RESOURCE) matches Some(
                ResourceValue::InputState(_),
            ),
            r.ecs.storage.resource_spec(TRANSFORM_CACHE_RESOURCE) matches Some(
                ResourceValue::TransformCache(c),
            ) && forall|id: int| c.matrix_of(id) == identity_spec(),
            r.ecs.storage.relationship_spec(CHILD_OF) is Some && (r.ecs.storage.relationship_spec(
                CHILD_OF,
            )->0).edges@.len() == 0,
            r.ecs.scheduler.stage_systems(Stage::Render) == seq![
                System::ComputeEffectiveTransforms,
            ],
            r.ecs.scheduler.stage_systems(Stage::Update).len() == 0,
            r.ecs.scheduler.stage_systems(Stage::FinalizeRender).len() == 0,
            r.ecs.storage.next_id == 0,
            forall|kind: u64, id: EntityId| r.ecs.storage.component_spec(kind, id) is None,
    {
        let mut ecs = Ecs::new();
        ecs.insert_resource(INPUT_STATE_RESOURCE, ResourceValue::InputState(InputState::new()));
        ecs.insert_resource(
            TRANSFORM_CACHE_RESOURCE,
            ResourceValue::TransformCache(TransformCache::new()),
        );
        ecs.define_relationship(CHILD_OF);
        ecs.register_system(Stage::Render, System::ComputeEffectiveTransforms);
        proof {
            assert(ecs.scheduler.stage_systems(Stage::Render) =~= seq![
                System::ComputeEffectiveTransforms,
            ]);
        }
        let init_system = match self.init_system {
            Some(sys) => sys,
            None => System::Noop,
        };
        Engine {
            application_title: self.application_title,
            ecs,
            queue: CommandQueue::new(),
            init_system,
            init_system_ran: false,
        }
    }
}

impl Default for EngineBuilder {
    /// The default builder: the default title and no init system.
    fn default() -> (r: Self)
        ensures
            r.application_title@ == "Tuber application"@,
            r.init_system is None,
    {
        Engine::builder()
    }
}

} // verus!
