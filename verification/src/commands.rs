//! The command queue: deferred structural mutation.
//!
//! A running system never mutates the storage structurally; it queues
//! commands, and the scheduler drains and applies them at the frame
//! boundary, in the order they were issued.

use vstd::prelude::*;
use crate::storage::{EntityDefinition, ResourceValue};
use crate::system::{Stage, System};
use crate::EntityId;

verus! {

/// A deferred entity allocation: owns the full component bundle.
#[derive(Clone, PartialEq, Eq, Debug)]
pub struct InsertEntity {
    pub entity_definition: EntityDefinition,
}

impl InsertEntity {
    /// Captures the bundle to allocate.
    pub fn new(entity_definition: EntityDefinition) -> (r: InsertEntity)
        ensures
            r.entity_definition == entity_definition,
    {
        InsertEntity { entity_definition }
    }
}

/// A deferred entity deletion.
#[derive(Clone, Copy, PartialEq, Eq, Structural, Debug)]
pub struct DeleteEntity {
    pub entity_id: EntityId,
}

impl DeleteEntity {
    /// Captures the id to delete.
    pub fn new(entity_id: EntityId) -> (r: DeleteEntity)
        ensures
            r.entity_id == entity_id,
    {
        DeleteEntity { entity_id }
    }
}

/// A deferred resource installation: owns the resource instance.
#[derive(Clone, PartialEq, Eq, Debug)]
pub struct InsertResource {
    pub key: u64,
    pub resource: ResourceValue,
}

impl InsertResource {
    /// Captures the resource to install under its type key.
    pub fn new(key: u64, resource: ResourceValue) -> (r: InsertResource)
        ensures
            r.key == key,
            r.resource == resource,
    {
        InsertResource { key, resource }
    }
}

/// A deferred system registration.
#[derive(Clone, Copy, PartialEq, Eq, Structural, Debug)]
pub struct RegisterSystem {
    pub stage: Stage,
    pub system: System,
}

impl RegisterSystem {
    /// Captures the system and the stage it joins.
    pub fn new(stage: Stage, system: System) -> (r: RegisterSystem)
        ensures
            r.stage == stage,
            r.system == system,
    {
        RegisterSystem { stage, system }
    }
}

/// One deferred structural mutation, owning everything its application
/// needs.
#[derive(Clone, PartialEq, Eq, Debug)]
pub enum Command {
    InsertEntity(InsertEntity),
    DeleteEntity(DeleteEntity),
    InsertResource(InsertResource),
    RegisterSystem(RegisterSystem),
}

/// Whether every bundle a command list carries is well typed.
pub open spec fn commands_consistent(s: Seq<Command>) -> bool {
    forall|i: int|
        0 <= i < s.len() ==> ((#[trigger] s[i]) is InsertEntity
            ==> s[i]->InsertEntity_0.entity_definition.consistent())
}

/// The queue of commands issued during a frame, in issue order.
#[derive(Clone, PartialEq, Eq, Debug)]
pub struct CommandQueue {
    pub commands: Vec<Command>,
}

impl CommandQueue {
    /// An empty queue.
    pub fn new() -> (r: CommandQueue)
        ensures
            r.commands@.len() == 0,
            commands_consistent(r.commands@),
    {
        CommandQueue { commands: Vec::new() }
    }

    /// Appends one command.
    fn push_command(&mut self, command: Command)
        ensures
            final(self).commands@ == old(self).commands@.push(command),
    {
        self.commands.push(command);
    }

    /// Queues the allocation of a new entity with the given bundle.
    pub fn insert(&mut self, entity_definition: EntityDefinition)
        requires
            entity_definition.consistent(),
        ensures
            final(self).commands@ == old(self).commands@.push(
                Command::InsertEntity(InsertEntity { entity_definition }),
            ),
            commands_consistent(old(self).commands@) ==> commands_consistent(
                final(self).commands@,
            ),
    {
        self.push_command(Command::InsertEntity(InsertEntity::new(entity_definition)));
    }

    /// Queues the deletion of `entity_id`.
    pub fn delete(&mut self, entity_id: EntityId)
        ensures
            final(self).commands@ == old(self).commands@.push(
                Command::DeleteEntity(DeleteEntity { entity_id }),
            ),
            commands_consistent(old(self).commands@) ==> commands_consistent(
                final(self).commands@,
            ),
    {
        self.push_command(Command::DeleteEntity(DeleteEntity::new(entity_id)));
    }

    /// Queues the installation of a resource under its type key.
    pub fn insert_resource(&mut self, key: u64, resource: ResourceValue)
        ensures
            final(self).commands@ == old(self).commands@.push(
                Command::InsertResource(InsertResource { key, resource }),
            ),
            commands_consistent(old(self).commands@) ==> commands_consistent(
                final(self).commands@,
            ),
    {
        self.push_command(Command::InsertResource(InsertResource::new(key, resource)));
    }

    /// Queues the registration of a system under a stage.
    pub fn register_system(&mut self, stage: Stage, system: System)
        ensures
            final(self).commands@ == old(self).commands@.push(
                Command::RegisterSystem(RegisterSystem { stage, system }),
            ),
            commands_consistent(old(self).commands@) ==> commands_consistent(
                final(self).commands@,
            ),
    {
        self.push_command(Command::RegisterSystem(RegisterSystem::new(stage, system)));
    }

    /// Empties the queue and hands back every command in issue order:
    /// first issued, first applied.
    pub fn drain(&mut self) -> (r: Vec<Command>)
        ensures
            r@ == old(self).commands@,
            final(self).commands@.len() == 0,
    {
        let mut out: Vec<Command> = Vec::new();
        core::mem::swap(&mut self.commands, &mut out);
        out
    }
}

impl Default for CommandQueue {
    /// An empty queue.
    fn default() -> (r: Self)
        ensures
            r.commands@.len() == 0,
    {
        CommandQueue::new()
    }
}

} // verus!
