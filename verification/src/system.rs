//! Stages, systems, and the per-frame scheduler.
//!
//! The scheduler owns one ordered system list per stage; a frame runs
//! every stage in the fixed engine order (update, then render, then
//! finalize-render) and, within a stage, every system in registration
//! order.

use vstd::prelude::*;

verus! {

/// A named phase of the per-frame schedule. The stage order is fixed by
/// the engine; extending the set is an engine-level change.
#[derive(Clone, Copy, PartialEq, Eq, Structural, Debug)]
pub enum Stage {
    Update,
    Render,
    FinalizeRender,
}

/// One schedulable unit of behavior. The set is closed: each variant
/// names an engine behavior that the scheduler dispatches when the
/// system's turn comes.
#[derive(Clone, Copy, PartialEq, Eq, Structural, Debug)]
pub enum System {
    /// Does nothing; the default init system.
    Noop,
    /// Recomputes the world matrices of entities whose transform
    /// changed, and of their relatives, into the transform cache.
    ComputeEffectiveTransforms,
    /// Empties the render graph so the frame rebuilds it from scratch.
    ClearRenderGraph,
    /// Registers the clear pass for this frame.
    AddClearPass,
    /// Registers the sprite-drawing pass for this frame.
    AddDrawSpritesPass,
    /// Runs the prepare phase of every registered render pass.
    PreparePasses,
}

/// The ordered system lists, one per stage.
#[derive(Clone, PartialEq, Eq, Debug)]
pub struct Scheduler {
    pub update: Vec<System>,
    pub render: Vec<System>,
    pub finalize_render: Vec<System>,
}

impl Scheduler {
    /// The systems registered under `stage`, in registration order.
    pub open spec fn stage_systems(&self, stage: Stage) -> Seq<System> {
        match stage {
            Stage::Update => self.update@,
            Stage::Render => self.render@,
            Stage::FinalizeRender => self.finalize_render@,
        }
    }

    /// The full schedule of one frame: every stage in the fixed stage
    /// order, each stage's systems in registration order.
    pub open spec fn schedule(&self) -> Seq<System> {
        self.update@ + self.render@ + self.finalize_render@
    }

    /// An empty scheduler.
    pub fn new() -> (r: Scheduler)
        ensures
            r.update@.len() == 0,
            r.render@.len() == 0,
            r.finalize_render@.len() == 0,
            r.schedule().len() == 0,
    {
        let r = Scheduler { update: Vec::new(), render: Vec::new(), finalize_render: Vec::new() };
        proof {
            assert(r.schedule() =~= Seq::<System>::empty());
        }
        r
    }

    /// Appends `system` to the list of `stage`: registration order is
    /// the tie-break among systems of one stage, and no other stage
    /// changes.
    pub fn register_system(&mut self, stage: Stage, system: System)
        ensures
            final(self).stage_systems(stage) == old(self).stage_systems(stage).push(system),
            forall|other: Stage| other != stage ==> final(self).stage_systems(other) == old(
                self,
            ).stage_systems(other),
    {
        match stage {
            Stage::Update => self.update.push(system),
            Stage::Render => self.render.push(system),
            Stage::FinalizeRender => self.finalize_render.push(system),
        }
    }
}

} // verus!
