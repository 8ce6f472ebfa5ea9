//! The storage: exclusive owner of entity identity, the typed component
//! tables with their per-frame dirty flags, the resource singletons and
//! the relationship graphs.
//!
//! Component types and resource types are identified by runtime type
//! keys (`u64`); each table maps entity ids to at most one value of its
//! type, and an id present in any table is always below the allocation
//! counter.

use vstd::prelude::*;
use crate::input::InputState;
use crate::relationship::RelationshipGraph;
use crate::render_graph::RenderGraph;
use crate::sprite::Sprite;
use crate::transform::{Transform, TransformCache};
use crate::EntityId;

verus! {

/// The type key of the transform component.
pub const TRANSFORM_COMPONENT: u64 = 1;

/// The type key of the sprite component.
pub const SPRITE_COMPONENT: u64 = 2;

/// The type key of the transform-cache resource.
pub const TRANSFORM_CACHE_RESOURCE: u64 = 1;

/// The type key of the input-state resource.
pub const INPUT_STATE_RESOURCE: u64 = 2;

/// The type key of the render-graph resource.
pub const RENDER_GRAPH_RESOURCE: u64 = 3;

/// The type key of the delta-time resource.
pub const DELTA_TIME_RESOURCE: u64 = 4;

/// One component value. Types with behavior known to the engine have a
/// variant of their own; `Flag` serves marker components whose identity
/// is their type key alone, and `Scalar` serves plain data components.
#[derive(Clone, Copy, PartialEq, Eq, Structural, Debug)]
pub enum ComponentValue {
    Transform(Transform),
    Sprite(Sprite),
    Flag,
    Scalar(i64),
}

/// One resource value: a singleton independent of any entity.
#[derive(Clone, PartialEq, Eq, Debug)]
pub enum ResourceValue {
    TransformCache(TransformCache),
    InputState(InputState),
    RenderGraph(RenderGraph),
    /// The simulated seconds of the last frame, in fixed point.
    DeltaTime(i64),
    Scalar(i64),
}

/// Whether `value` is of the component type the key announces: the keys
/// with an engine-known payload must carry that payload.
pub open spec fn kind_consistent(kind: u64, value: ComponentValue) -> bool {
    &&& kind == TRANSFORM_COMPONENT ==> value is Transform
    &&& kind == SPRITE_COMPONENT ==> value is Sprite
}

/// One component table: the values of one component type, indexed by
/// entity id, beside the type's per-frame dirty flags.
#[derive(Clone, PartialEq, Eq, Debug)]
pub struct ComponentTable {
    pub kind: u64,
    pub entries: Vec<Option<ComponentValue>>,
    pub dirty: Vec<bool>,
}

/// Whether some table in `tables` is keyed by `kind`.
pub open spec fn has_table(tables: Seq<ComponentTable>, kind: u64) -> bool {
    exists|i: int| 0 <= i < tables.len() && tables[i].kind == kind
}

/// The table keyed by `kind`; meaningful only under `has_table`, unique
/// under `Storage::well_formed`.
pub open spec fn table_of(tables: Seq<ComponentTable>, kind: u64) -> ComponentTable {
    tables[choose|i: int| 0 <= i < tables.len() && tables[i].kind == kind]
}

/// Whether some pair in `s` is keyed by `key`.
pub open spec fn has_key<T>(s: Seq<(u64, T)>, key: u64) -> bool {
    exists|i: int| 0 <= i < s.len() && s[i].0 == key
}

/// The value paired with `key`; meaningful only under `has_key`, unique
/// under `unique_keys`.
pub open spec fn value_of<T>(s: Seq<(u64, T)>, key: u64) -> T {
    s[choose|i: int| 0 <= i < s.len() && s[i].0 == key].1
}

/// Whether no two pairs in `s` share a key.
pub open spec fn unique_keys<T>(s: Seq<(u64, T)>) -> bool {
    forall|i: int, j: int| 0 <= i < j < s.len() ==> s[i].0 != s[j].0
}

/// Under unique keys, any pair with a matching key decides `value_of`.
pub proof fn lemma_value_of<T>(s: Seq<(u64, T)>, key: u64, i: int)
    requires
        unique_keys(s),
        0 <= i < s.len(),
        s[i].0 == key,
    ensures
        has_key(s, key),
        value_of(s, key) == s[i].1,
{
    let j = choose|j: int| 0 <= j < s.len() && s[j].0 == key;
}

/// Under unique table kinds, any table with a matching kind decides
/// `table_of`.
pub proof fn lemma_table_lookup(tables: Seq<ComponentTable>, kind: u64, i: int)
    requires
        forall|p: int, q: int| 0 <= p < q < tables.len() ==> tables[p].kind != tables[q].kind,
        0 <= i < tables.len(),
        tables[i].kind == kind,
    ensures
        has_table(tables, kind),
        table_of(tables, kind) == tables[i],
{
    let j = choose|j: int| 0 <= j < tables.len() && tables[j].kind == kind;
}

/// The value the bundle stores under `kind`: the last occurrence wins,
/// so that a bundle holds at most one value per component type.
pub open spec fn bundle_lookup(s: Seq<(u64, ComponentValue)>, kind: u64) -> Option<ComponentValue>
    decreases s.len(),
{
    if s.len() == 0 {
        None
    } else if s.last().0 == kind {
        Some(s.last().1)
    } else {
        bundle_lookup(s.drop_last(), kind)
    }
}

/// The sprite payloads among `entries`, in entity-id order.
pub open spec fn sprites_of(entries: Seq<Option<ComponentValue>>) -> Seq<Sprite>
    decreases entries.len(),
{
    if entries.len() == 0 {
        Seq::empty()
    } else if entries.last() is Some && entries.last()->0 is Sprite {
        sprites_of(entries.drop_last()).push(entries.last()->0->Sprite_0)
    } else {
        sprites_of(entries.drop_last())
    }
}

/// The component bundle of one entity to be allocated: pairs of a
/// component type key and the value stored under it.
#[derive(Clone, PartialEq, Eq, Debug)]
pub struct EntityDefinition {
    pub components: Vec<(u64, ComponentValue)>,
}

impl EntityDefinition {
    /// Whether every value in the bundle is of the type its key
    /// announces.
    pub open spec fn consistent(&self) -> bool {
        forall|i: int|
            0 <= i < self.components@.len() ==> kind_consistent(
                #[trigger] self.components@[i].0,
                self.components@[i].1,
            )
    }

    /// An empty bundle.
    pub fn new() -> (r: EntityDefinition)
        ensures
            r.components@.len() == 0,
            r.consistent(),
    {
        EntityDefinition { components: Vec::new() }
    }

    /// Appends one component to the bundle; a later value under the
    /// same key replaces an earlier one at insertion.
    pub fn with(&mut self, kind: u64, value: ComponentValue)
        requires
            kind_consistent(kind, value),
        ensures
            final(self).components@ == old(self).components@.push((kind, value)),
            old(self).consistent() ==> final(self).consistent(),
    {
        self.components.push((kind, value));
    }
}

/// The exclusive owner of all entity, component, resource and
/// relationship state.
#[derive(Clone, PartialEq, Eq, Debug)]
pub struct Storage {
    pub tables: Vec<ComponentTable>,
    pub resources: Vec<(u64, ResourceValue)>,
    pub relationships: Vec<(u64, RelationshipGraph)>,
    pub next_id: usize,
}

/// The component of type `kind` on entity `id` among `tables`, if any.
pub open spec fn component_in(tables: Seq<ComponentTable>, kind: u64, id: EntityId) -> Option<
    ComponentValue,
> {
    if has_table(tables, kind) {
        let t = table_of(tables, kind);
        if id < t.entries@.len() {
            t.entries@[id as int]
        } else {
            None
        }
    } else {
        None
    }
}

/// Whether the component of type `kind` on entity `id` is flagged
/// dirty among `tables`.
pub open spec fn dirty_in(tables: Seq<ComponentTable>, kind: u64, id: EntityId) -> bool {
    has_table(tables, kind) && id < table_of(tables, kind).dirty@.len() && table_of(
        tables,
        kind,
    ).dirty@[id as int]
}

impl Storage {
    /// The component of type `kind` on entity `id`, if any.
    pub open spec fn component_spec(&self, kind: u64, id: EntityId) -> Option<ComponentValue> {
        component_in(self.tables@, kind, id)
    }

    /// Whether the component of type `kind` on entity `id` changed this
    /// frame.
    pub open spec fn dirty_spec(&self, kind: u64, id: EntityId) -> bool {
        dirty_in(self.tables@, kind, id)
    }

    /// The resource of type `key`, if any.
    pub open spec fn resource_spec(&self, key: u64) -> Option<ResourceValue> {
        if has_key(self.resources@, key) {
            Some(value_of(self.resources@, key))
        } else {
            None
        }
    }

    /// The relationship graph of kind `kind`, if registered.
    pub open spec fn relationship_spec(&self, kind: u64) -> Option<RelationshipGraph> {
        if has_key(self.relationships@, kind) {
            Some(value_of(self.relationships@, kind))
        } else {
            None
        }
    }

    /// Whether `id` carries any component.
    pub open spec fn alive(&self, id: EntityId) -> bool {
        exists|kind: u64| self.component_spec(kind, id) is Some
    }

    /// The storage invariant: table keys are unique, each table's entry
    /// and dirty columns agree in length and stay below the allocation
    /// counter, stored values are of the type their table announces,
    /// and resource and relationship keys are unique.
    pub open spec fn well_formed(&self) -> bool {
        &&& forall|i: int, j: int|
            0 <= i < j < self.tables@.len() ==> self.tables@[i].kind != self.tables@[j].kind
        &&& forall|i: int|
            0 <= i < self.tables@.len() ==> (#[trigger] self.tables@[i]).entries@.len()
                == self.tables@[i].dirty@.len()
        &&& forall|i: int|
            0 <= i < self.tables@.len() ==> (#[trigger] self.tables@[i]).entries@.len()
                <= self.next_id
        &&& forall|i: int, e: int|
            0 <= i < self.tables@.len() && 0 <= e < self.tables@[i].entries@.len() && (
            #[trigger] self.tables@[i].entries@[e]) is Some ==> kind_consistent(
                self.tables@[i].kind,
                self.tables@[i].entries@[e]->0,
            )
        &&& unique_keys(self.resources@)
        &&& unique_keys(self.relationships@)
    }

    /// Empty storage: no entity allocated, no component, resource or
    /// relationship present.
    pub fn new() -> (r: Storage)
        ensures
            r.well_formed(),
            r.next_id == 0,
            r.tables@.len() == 0,
            r.resources@.len() == 0,
            r.relationships@.len() == 0,
            forall|kind: u64, id: EntityId| r.component_spec(kind, id) is None,
            forall|kind: u64, id: EntityId| !r.dirty_spec(kind, id),
            forall|key: u64| r.resource_spec(key) is None,
            forall|kind: u64| r.relationship_spec(kind) is None,
    {
        Storage {
            tables: Vec::new(),
            resources: Vec::new(),
            relationships: Vec::new(),
            next_id: 0,
        }
    }

    /// The index of the table keyed by `kind`, if any.
    fn find_table(&self, kind: u64) -> (r: Option<usize>)
        ensures
            match r {
                Some(i) => i < self.tables@.len() && self.tables@[i as int].kind == kind,
                None => !has_table(self.tables@, kind),
            },
    {
        let mut i: usize = 0;
        while i < self.tables.len()
            invariant
                i <= self.tables@.len(),
                forall|j: int| 0 <= j < i ==> self.tables@[j].kind != kind,
            decreases self.tables@.len() - i,
        {
            if self.tables[i].kind == kind {
                return Some(i);
            }
            i += 1;
        }
        None
    }

    /// Under the invariant, a table index found by key decides
    /// `table_of`.
    proof fn lemma_table_of(&self, kind: u64, i: int)
        requires
            self.well_formed(),
            0 <= i < self.tables@.len(),
            self.tables@[i].kind == kind,
        ensures
            has_table(self.tables@, kind),
            table_of(self.tables@, kind) == self.tables@[i],
    {
        let j = choose|j: int| 0 <= j < self.tables@.len() && self.tables@[j].kind == kind;
    }

    /// The allocation counter: every id ever returned by `insert` is
    /// below it, and ids at or above it are fresh.
    pub fn next_entity_id(&self) -> (r: usize)
        ensures
            r == self.next_id,
    {
        self.next_id
    }

    /// The component of type `kind` on entity `id`, absent when the
    /// type or the entity is unknown.
    pub fn component(&self, kind: u64, id: EntityId) -> (r: Option<&ComponentValue>)
        requires
            self.well_formed(),
        ensures
            match r {
                Some(v) => self.component_spec(kind, id) == Some(*v),
                None => self.component_spec(kind, id) is None,
            },
    {
        match self.find_table(kind) {
            Some(i) => {
                proof {
                    self.lemma_table_of(kind, i as int);
                }
                if id < self.tables[i].entries.len() {
                    match &self.tables[i].entries[id] {
                        Some(v) => Some(v),
                        None => None,
                    }
                } else {
                    None
                }
            },
            None => None,
        }
    }

    /// Whether the component of type `kind` on entity `id` changed this
    /// frame.
    pub fn dirty_state(&self, kind: u64, id: EntityId) -> (r: bool)
        requires
            self.well_formed(),
        ensures
            r == self.dirty_spec(kind, id),
    {
        match self.find_table(kind) {
            Some(i) => {
                proof {
                    self.lemma_table_of(kind, i as int);
                }
                id < self.tables[i].dirty.len() && self.tables[i].dirty[id]
            },
            None => false,
        }
    }

    /// The index of the resource pair keyed by `key`, if any.
    fn find_resource(&self, key: u64) -> (r: Option<usize>)
        ensures
            match r {
                Some(i) => i < self.resources@.len() && self.resources@[i as int].0 == key,
                None => !has_key(self.resources@, key),
            },
    {
        let mut i: usize = 0;
        while i < self.resources.len()
            invariant
                i <= self.resources@.len(),
                forall|j: int| 0 <= j < i ==> self.resources@[j].0 != key,
            decreases self.resources@.len() - i,
        {
            if self.resources[i].0 == key {
                return Some(i);
            }
            i += 1;
        }
        None
    }

    /// The resource of type `key`, absent when none was inserted.
    pub fn resource(&self, key: u64) -> (r: Option<&ResourceValue>)
        requires
            self.well_formed(),
        ensures
            match r {
                Some(v) => self.resource_spec(key) == Some(*v),
                None => self.resource_spec(key) is None,
            },
    {
        match self.find_resource(key) {
            Some(i) => {
                proof {
                    lemma_value_of(self.resources@, key, i as int);
                }
                Some(&self.resources[i].1)
            },
            None => None,
        }
    }

    /// The index of the relationship pair keyed by `kind`, if any.
    fn find_relationship(&self, kind: u64) -> (r: Option<usize>)
        ensures
            match r {
                Some(i) => i < self.relationships@.len() && self.relationships@[i as int].0
                    == kind,
                None => !has_key(self.relationships@, kind),
            },
    {
        let mut i: usize = 0;
        while i < self.relationships.len()
            invariant
                i <= self.relationships@.len(),
                forall|j: int| 0 <= j < i ==> self.relationships@[j].0 != kind,
            decreases self.relationships@.len() - i,
        {
            if self.relationships[i].0 == kind {
                return Some(i);
            }
            i += 1;
        }
        None
    }

    /// The relationship graph of kind `kind`, absent when never
    /// defined.
    pub fn relationship(&self, kind: u64) -> (r: Option<&RelationshipGraph>)
        requires
            self.well_formed(),
        ensures
            match r {
                Some(g) => self.relationship_spec(kind) == Some(*g),
                None => self.relationship_spec(kind) is None,
            },
    {
        match self.find_relationship(kind) {
            Some(i) => {
                proof {
                    lemma_value_of(self.relationships@, kind, i as int);
                }
                Some(&self.relationships[i].1)
            },
            None => None,
        }
    }

    /// The index of the table keyed by `kind`, creating an empty table
    /// for `kind` when none exists yet. Leaves every component and dirty
    /// flag as it was.
    fn ensure_table(&mut self, kind: u64) -> (i: usize)
        requires
            old(self).well_formed(),
        ensures
            final(self).well_formed(),
            i < final(self).tables@.len(),
            final(self).tables@[i as int].kind == kind,
            forall|j: int|
                0 <= j < old(self).tables@.len() ==> final(self).tables@[j] == old(self).tables@[j],
            final(self).tables@.len() == old(self).tables@.len() || final(self).tables@.len() == old(self).tables@.len() + 1,
            forall|k2: u64, o: EntityId|
                final(self).component_spec(k2, o) == old(self).component_spec(k2, o),
            forall|k2: u64, o: EntityId| final(self).dirty_spec(k2, o) == old(self).dirty_spec(
                k2,
                o,
            ),
            final(self).next_id == old(self).next_id,
            final(self).resources@ == old(self).resources@,
            final(self).relationships@ == old(self).relationships@,
    {
        match self.find_table(kind) {
            Some(i) => i,
            None => {
                let i = self.tables.len();
                self.tables.push(ComponentTable { kind, entries: Vec::new(), dirty: Vec::new() });
                proof {
                    let s1 = old(self).tables@;
                    let s2 = self.tables@;
                    assert forall|p: int, q: int|
                        0 <= p < q < s2.len() implies s2[p].kind != s2[q].kind by {
                        if q < s1.len() {
                        } else {
                            assert(s2[q].kind == kind);
                            assert(s1[p].kind != kind);
                        }
                    }
                    assert forall|k2: u64, o: EntityId|
                        final(self).component_spec(k2, o) == old(self).component_spec(
                            k2,
                            o,
                        ) && final(self).dirty_spec(k2, o) == old(self).dirty_spec(k2, o) by {
                        if k2 == kind {
                            lemma_table_lookup(s2, kind, i as int);
                            assert(table_of(s2, kind).entries@.len() == 0);
                            assert(!has_table(s1, kind));
                        } else {
                            if has_table(s1, k2) {
                                let j = choose|j: int| 0 <= j < s1.len() && s1[j].kind == k2;
                                lemma_table_lookup(s1, k2, j);
                                lemma_table_lookup(s2, k2, j);
                            } else {
                                assert(!has_table(s2, k2)) by {
                                    if has_table(s2, k2) {
                                        let j = choose|j: int|
                                            0 <= j < s2.len() && s2[j].kind == k2;
                                        assert(j < s1.len());
                                    }
                                }
                            }
                        }
                    }
                }
                i
            },
        }
    }

    /// Stores `value` as the component of type `kind` on the (already
    /// allocated) entity `id` and marks it dirty, leaving every other
    /// component, flag and entity untouched.
    fn store_component(&mut self, kind: u64, id: EntityId, value: ComponentValue)
        requires
            old(self).well_formed(),
            id < old(self).next_id,
            kind_consistent(kind, value),
        ensures
            final(self).well_formed(),
            final(self).component_spec(kind, id) == Some(value),
            final(self).dirty_spec(kind, id),
            forall|k2: u64, o: EntityId|
                !(k2 == kind && o == id) ==> final(self).component_spec(k2, o) == old(self).component_spec(k2, o),
            forall|k2: u64, o: EntityId|
                !(k2 == kind && o == id) ==> final(self).dirty_spec(k2, o) == old(self).dirty_spec(
                    k2,
                    o,
                ),
            final(self).next_id == old(self).next_id,
            final(self).resources@ == old(self).resources@,
            final(self).relationships@ == old(self).relationships@,
    {
        let ti = self.ensure_table(kind);
        let ghost s1 = *self;
        let mut t = ComponentTable { kind, entries: Vec::new(), dirty: Vec::new() };
        core::mem::swap(&mut self.tables[ti], &mut t);
        let ghost t0 = t;
        proof {
            assert(t0.entries@.len() == t0.dirty@.len());
        }
        while t.entries.len() <= id
            invariant
                t.kind == kind,
                t.entries@.len() == t.dirty@.len(),
                t.entries@.len() >= t0.entries@.len(),
                t.entries@.len() <= id + 1 || t.entries@.len() == t0.entries@.len(),
                t0.entries@.len() == t0.dirty@.len(),
                forall|j: int| 0 <= j < t0.entries@.len() ==> t.entries@[j] == t0.entries@[j],
                forall|j: int| 0 <= j < t0.dirty@.len() ==> t.dirty@[j] == t0.dirty@[j],
                forall|j: int| t0.entries@.len() <= j < t.entries@.len() ==> t.entries@[j] is None,
                forall|j: int| t0.dirty@.len() <= j < t.dirty@.len() ==> !t.dirty@[j],
            decreases id + 1 - t.entries.len(),
        {
            t.entries.push(None);
            t.dirty.push(false);
        }
        t.entries.set(id, Some(value));
        t.dirty.set(id, true);
        core::mem::swap(&mut self.tables[ti], &mut t);
        proof {
            let s2 = self.tables@;
            let tnew = s2[ti as int];
            assert(s2 =~= s1.tables@.update(ti as int, tnew));
            assert(tnew.kind == kind);
            assert forall|p: int, q: int|
                0 <= p < q < s2.len() implies s2[p].kind != s2[q].kind by {
                assert(s1.tables@[p].kind != s1.tables@[q].kind);
            }
            assert forall|p: int|
                0 <= p < s2.len() implies (#[trigger] s2[p]).entries@.len() == s2[p].dirty@.len()
                    && s2[p].entries@.len() <= self.next_id by {
                if p == ti as int {
                    assert(s1.tables@[p].entries@.len() <= s1.next_id);
                } else {
                    assert(s2[p] == s1.tables@[p]);
                }
            }
            assert forall|p: int, e: int|
                0 <= p < s2.len() && 0 <= e < s2[p].entries@.len() && (
                #[trigger] s2[p].entries@[e]) is Some implies kind_consistent(
                s2[p].kind,
                s2[p].entries@[e]->0,
            ) by {
                if p == ti as int {
                    if e == id as int {
                    } else if e < t0.entries@.len() {
                        assert(s1.tables@[p].entries@[e] == t0.entries@[e]);
                        assert(s1.tables@[p].entries@[e] is Some ==> kind_consistent(
                            s1.tables@[p].kind,
                            s1.tables@[p].entries@[e]->0,
                        ));
                    } else {
                        assert(s2[p].entries@[e] is None);
                    }
                } else {
                    assert(s2[p] == s1.tables@[p]);
                    assert(s1.tables@[p].entries@[e] is Some ==> kind_consistent(
                        s1.tables@[p].kind,
                        s1.tables@[p].entries@[e]->0,
                    ));
                }
            }
            lemma_table_lookup(s2, kind, ti as int);
            lemma_table_lookup(s1.tables@, kind, ti as int);
            assert forall|k2: u64, o: EntityId|
                !(k2 == kind && o == id) implies final(self).component_spec(k2, o)
                == s1.component_spec(k2, o) && final(self).dirty_spec(k2, o) == s1.dirty_spec(
                k2,
                o,
            ) by {
                if k2 == kind {
                    assert(table_of(s2, kind) == tnew);
                    assert(table_of(s1.tables@, kind) == s1.tables@[ti as int]);
                } else {
                    if has_table(s1.tables@, k2) {
                        let j = choose|j: int|
                            0 <= j < s1.tables@.len() && s1.tables@[j].kind == k2;
                        assert(j != ti as int);
                        lemma_table_lookup(s1.tables@, k2, j);
                        lemma_table_lookup(s2, k2, j);
                    } else {
                        assert(!has_table(s2, k2)) by {
                            if has_table(s2, k2) {
                                let j = choose|j: int| 0 <= j < s2.len() && s2[j].kind == k2;
                                assert(j != ti as int);
                                assert(s1.tables@[j].kind == k2);
                            }
                        }
                    }
                }
            }
        }
    }

    /// Allocates the next entity id, stores every component of the
    /// bundle on it (the last value under a repeated key wins), marks
    /// each stored component type dirty for the new id, and returns the
    /// id. The returned id is distinct from every id alive before the
    /// call.
    pub fn insert(&mut self, def: EntityDefinition) -> (id: EntityId)
        requires
            old(self).well_formed(),
            old(self).next_id < usize::MAX,
            def.consistent(),
        ensures
            final(self).well_formed(),
            id == old(self).next_id,
            !old(self).alive(id),
            final(self).next_id == old(self).next_id + 1,
            forall|kind: u64|
                (#[trigger] bundle_lookup(def.components@, kind)) is Some ==> final(self).component_spec(kind, id) == bundle_lookup(def.components@, kind) && final(self).dirty_spec(kind, id),
            forall|kind: u64|
                (#[trigger] bundle_lookup(def.components@, kind)) is None ==> final(self).component_spec(kind, id) is None && !final(self).dirty_spec(kind, id),
            forall|kind: u64, o: EntityId|
                o != id ==> final(self).component_spec(kind, o) == old(self).component_spec(
                    kind,
                    o,
                ),
            forall|kind: u64, o: EntityId|
                o != id ==> final(self).dirty_spec(kind, o) == old(self).dirty_spec(kind, o),
            final(self).resources@ == old(self).resources@,
            final(self).relationships@ == old(self).relationships@,
    {
        proof {
            lemma_fresh_id_not_alive(*self);
        }
        let id = self.next_id;
        self.next_id = self.next_id + 1;
        proof {
            assert forall|kind: u64|
                self.component_spec(kind, id) is None && !self.dirty_spec(kind, id) by {
                if has_table(self.tables@, kind) {
                    let j = choose|j: int|
                        0 <= j < self.tables@.len() && self.tables@[j].kind == kind;
                    lemma_table_lookup(self.tables@, kind, j);
                    assert(old(self).tables@[j].entries@.len() <= old(self).next_id);
                }
            }
        }
        let mut k: usize = 0;
        proof {
            assert(def.components@.subrange(0, 0) =~= Seq::<(u64, ComponentValue)>::empty());
        }
        while k < def.components.len()
            invariant
                k <= def.components@.len(),
                def.consistent(),
                self.well_formed(),
                self.next_id == old(self).next_id + 1,
                id == old(self).next_id,
                forall|kind: u64|
                    (#[trigger] bundle_lookup(def.components@.subrange(0, k as int), kind))
                        is Some ==> self.component_spec(kind, id) == bundle_lookup(
                        def.components@.subrange(0, k as int),
                        kind,
                    ) && self.dirty_spec(kind, id),
                forall|kind: u64|
                    (#[trigger] bundle_lookup(def.components@.subrange(0, k as int), kind))
                        is None ==> self.component_spec(kind, id) is None && !self.dirty_spec(
                        kind,
                        id,
                    ),
                forall|kind: u64, o: EntityId|
                    o != id ==> self.component_spec(kind, o) == old(self).component_spec(kind, o),
                forall|kind: u64, o: EntityId|
                    o != id ==> self.dirty_spec(kind, o) == old(self).dirty_spec(kind, o),
                self.resources@ == old(self).resources@,
                self.relationships@ == old(self).relationships@,
            decreases def.components@.len() - k,
        {
            let ghost pre = *self;
            let (kind, value) = def.components[k];
            assert(kind_consistent(kind, value));
            self.store_component(kind, id, value);
            proof {
                let prefix = def.components@.subrange(0, k as int);
                let prefix2 = def.components@.subrange(0, k + 1);
                assert(prefix2.drop_last() =~= prefix);
                assert(prefix2.last() == def.components@[k as int]);
                assert forall|k2: u64|
                    ((#[trigger] bundle_lookup(prefix2, k2)) is Some ==> self.component_spec(
                        k2,
                        id,
                    ) == bundle_lookup(prefix2, k2) && self.dirty_spec(k2, id)) && (bundle_lookup(
                        prefix2,
                        k2,
                    ) is None ==> self.component_spec(k2, id) is None && !self.dirty_spec(
                        k2,
                        id,
                    )) by {
                    if k2 == kind {
                    } else {
                        assert(bundle_lookup(prefix2, k2) == bundle_lookup(prefix, k2));
                        assert(self.component_spec(k2, id) == pre.component_spec(k2, id));
                        assert(self.dirty_spec(k2, id) == pre.dirty_spec(k2, id));
                    }
                }
            }
            k += 1;
        }
        proof {
            assert(def.components@.subrange(0, def.components@.len() as int) =~= def.components@);
        }
        id
    }

    /// Replaces the component of type `kind` on `id` and marks it
    /// dirty, when such a component is present; reports whether it was.
    /// An absent component or an unknown type leaves the storage
    /// unchanged.
    pub fn set_component(&mut self, kind: u64, id: EntityId, value: ComponentValue) -> (updated:
        bool)
        requires
            old(self).well_formed(),
            kind_consistent(kind, value),
        ensures
            final(self).well_formed(),
            updated == old(self).component_spec(kind, id) is Some,
            updated ==> final(self).component_spec(kind, id) == Some(value) && final(self).dirty_spec(kind, id),
            updated ==> forall|k2: u64, o: EntityId|
                !(k2 == kind && o == id) ==> final(self).component_spec(k2, o) == old(self).component_spec(k2, o) && final(self).dirty_spec(k2, o) == old(self).dirty_spec(
                    k2,
                    o,
                ),
            !updated ==> *final(self) == *old(self),
            final(self).next_id == old(self).next_id,
            final(self).resources@ == old(self).resources@,
            final(self).relationships@ == old(self).relationships@,
    {
        let present = match self.component(kind, id) {
            Some(_) => true,
            None => false,
        };
        if present {
            proof {
                let j = choose|j: int|
                    0 <= j < self.tables@.len() && self.tables@[j].kind == kind;
                lemma_table_lookup(self.tables@, kind, j);
                assert(self.tables@[j].entries@.len() <= self.next_id);
            }
            self.store_component(kind, id, value);
            true
        } else {
            false
        }
    }

    /// Removes `id` from every component table (clearing its dirty
    /// flags) and removes every edge incident to `id` from every
    /// relationship graph. Safe to call however much of the entity is
    /// already absent; no other entity, resource or counter changes.
    pub fn delete(&mut self, id: EntityId)
        requires
            old(self).well_formed(),
        ensures
            final(self).well_formed(),
            forall|kind: u64| final(self).component_spec(kind, id) is None,
            forall|kind: u64| !final(self).dirty_spec(kind, id),
            forall|kind: u64, o: EntityId|
                o != id ==> final(self).component_spec(kind, o) == old(self).component_spec(
                    kind,
                    o,
                ),
            forall|kind: u64, o: EntityId|
                o != id ==> final(self).dirty_spec(kind, o) == old(self).dirty_spec(kind, o),
            final(self).next_id == old(self).next_id,
            final(self).resources@ == old(self).resources@,
            final(self).relationships@.len() == old(self).relationships@.len(),
            forall|i: int|
                0 <= i < old(self).relationships@.len() ==> (#[trigger] final(self).relationships@[i]).0 == old(self).relationships@[i].0 && final(self).relationships@[i].1.edges@ == crate::relationship::without_incident(
                    old(self).relationships@[i].1.edges@,
                    id,
                ),
    {
        let mut ti: usize = 0;
        while ti < self.tables.len()
            invariant
                old(self).well_formed(),
                ti <= self.tables@.len(),
                self.tables@.len() == old(self).tables@.len(),
                forall|j: int|
                    ti <= j < self.tables@.len() ==> self.tables@[j] == old(self).tables@[j],
                forall|j: int|
                    0 <= j < ti ==> (#[trigger] self.tables@[j]).kind == old(self).tables@[j].kind
                        && self.tables@[j].entries@.len() == old(self).tables@[j].entries@.len()
                        && self.tables@[j].dirty@.len() == old(self).tables@[j].dirty@.len() && (id
                        < self.tables@[j].entries@.len() ==> self.tables@[j].entries@[id as int]
                        is None) && (id < self.tables@[j].dirty@.len()
                        ==> !self.tables@[j].dirty@[id as int]),
                forall|j: int, e: int|
                    0 <= j < ti && 0 <= e < self.tables@[j].entries@.len() && e != id ==> (
                    #[trigger] self.tables@[j].entries@[e]) == old(self).tables@[j].entries@[e]
                        && self.tables@[j].dirty@[e] == old(self).tables@[j].dirty@[e],
                self.resources@ == old(self).resources@,
                self.relationships@ == old(self).relationships@,
                self.next_id == old(self).next_id,
            decreases self.tables@.len() - ti,
        {
            let mut t = ComponentTable { kind: 0, entries: Vec::new(), dirty: Vec::new() };
            core::mem::swap(&mut self.tables[ti], &mut t);
            if id < t.entries.len() {
                t.entries.set(id, None);
            }
            if id < t.dirty.len() {
                t.dirty.set(id, false);
            }
            core::mem::swap(&mut self.tables[ti], &mut t);
            ti += 1;
        }
        let ghost mid = *self;
        let mut ri: usize = 0;
        while ri < self.relationships.len()
            invariant
                ri <= self.relationships@.len(),
                self.relationships@.len() == mid.relationships@.len(),
                forall|j: int|
                    ri <= j < self.relationships@.len() ==> self.relationships@[j]
                        == mid.relationships@[j],
                forall|j: int|
                    0 <= j < ri ==> (#[trigger] self.relationships@[j]).0
                        == mid.relationships@[j].0 && self.relationships@[j].1.edges@
                        == crate::relationship::without_incident(
                        mid.relationships@[j].1.edges@,
                        id,
                    ),
                self.tables@ == mid.tables@,
                self.resources@ == mid.resources@,
                self.next_id == mid.next_id,
            decreases self.relationships@.len() - ri,
        {
            let mut pair: (u64, RelationshipGraph) = (0, RelationshipGraph::new());
            core::mem::swap(&mut self.relationships[ri], &mut pair);
            pair.1.remove_incident_edges(id);
            core::mem::swap(&mut self.relationships[ri], &mut pair);
            ri += 1;
        }
        proof {
            let s1 = old(self).tables@;
            let s2 = self.tables@;
            assert forall|p: int, q: int|
                0 <= p < q < s2.len() implies s2[p].kind != s2[q].kind by {
                assert(s1[p].kind != s1[q].kind);
            }
            assert forall|kind: u64|
                final(self).component_spec(kind, id) is None && !final(self).dirty_spec(
                    kind,
                    id,
                ) by {
                if has_table(s2, kind) {
                    let j = choose|j: int| 0 <= j < s2.len() && s2[j].kind == kind;
                    lemma_table_lookup(s2, kind, j);
                }
            }
            assert forall|kind: u64, o: EntityId|
                o != id implies final(self).component_spec(kind, o) == old(self).component_spec(
                kind,
                o,
            ) && final(self).dirty_spec(kind, o) == old(self).dirty_spec(kind, o) by {
                if has_table(s1, kind) {
                    let j = choose|j: int| 0 <= j < s1.len() && s1[j].kind == kind;
                    lemma_table_lookup(s1, kind, j);
                    lemma_table_lookup(s2, kind, j);
                } else {
                    assert(!has_table(s2, kind)) by {
                        if has_table(s2, kind) {
                            let j = choose|j: int| 0 <= j < s2.len() && s2[j].kind == kind;
                            assert(s1[j].kind == kind);
                        }
                    }
                }
            }
            assert forall|p: int|
                0 <= p < s2.len() implies (#[trigger] s2[p]).entries@.len() == s2[p].dirty@.len()
                    && s2[p].entries@.len() <= self.next_id by {
                assert(s1[p].entries@.len() == s1[p].dirty@.len());
                assert(s1[p].entries@.len() <= old(self).next_id);
            }
            assert forall|p: int, e: int|
                0 <= p < s2.len() && 0 <= e < s2[p].entries@.len() && (
                #[trigger] s2[p].entries@[e]) is Some implies kind_consistent(
                s2[p].kind,
                s2[p].entries@[e]->0,
            ) by {
                assert(e != id);
                assert(s2[p].entries@[e] == s1[p].entries@[e]);
                assert(s1[p].entries@[e] is Some ==> kind_consistent(
                    s1[p].kind,
                    s1[p].entries@[e]->0,
                ));
            }
        }
    }

    /// Resets every dirty flag of every component table, leaving every
    /// component value, resource and relationship as it was; called
    /// once at the start of each frame.
    pub fn clear_dirty_flags(&mut self)
        requires
            old(self).well_formed(),
        ensures
            final(self).well_formed(),
            forall|kind: u64, id: EntityId| !final(self).dirty_spec(kind, id),
            forall|kind: u64, id: EntityId|
                final(self).component_spec(kind, id) == old(self).component_spec(kind, id),
            final(self).next_id == old(self).next_id,
            final(self).resources@ == old(self).resources@,
            final(self).relationships@ == old(self).relationships@,
    {
        let mut ti: usize = 0;
        while ti < self.tables.len()
            invariant
                ti <= self.tables@.len(),
                self.tables@.len() == old(self).tables@.len(),
                forall|j: int|
                    ti <= j < self.tables@.len() ==> self.tables@[j] == old(self).tables@[j],
                forall|j: int|
                    0 <= j < ti ==> (#[trigger] self.tables@[j]).kind == old(self).tables@[j].kind
                        && self.tables@[j].entries@ == old(self).tables@[j].entries@
                        && self.tables@[j].dirty@.len() == old(self).tables@[j].dirty@.len(),
                forall|j: int, e: int|
                    0 <= j < ti && 0 <= e < self.tables@[j].dirty@.len() ==> !(
                    #[trigger] self.tables@[j].dirty@[e]),
                self.resources@ == old(self).resources@,
                self.relationships@ == old(self).relationships@,
                self.next_id == old(self).next_id,
            decreases self.tables@.len() - ti,
        {
            let mut t = ComponentTable { kind: 0, entries: Vec::new(), dirty: Vec::new() };
            core::mem::swap(&mut self.tables[ti], &mut t);
            let ghost tmid = t;
            let mut e: usize = 0;
            while e < t.dirty.len()
                invariant
                    e <= t.dirty@.len(),
                    t.kind == tmid.kind,
                    t.entries@ == tmid.entries@,
                    t.dirty@.len() == tmid.dirty@.len(),
                    forall|q: int| 0 <= q < e ==> !t.dirty@[q],
                decreases t.dirty@.len() - e,
            {
                t.dirty.set(e, false);
                e += 1;
            }
            core::mem::swap(&mut self.tables[ti], &mut t);
            ti += 1;
        }
        proof {
            let s1 = old(self).tables@;
            let s2 = self.tables@;
            assert forall|p: int, q: int|
                0 <= p < q < s2.len() implies s2[p].kind != s2[q].kind by {
                assert(s1[p].kind != s1[q].kind);
            }
            assert forall|kind: u64, id: EntityId|
                !final(self).dirty_spec(kind, id) by {
                if has_table(s2, kind) {
                    let j = choose|j: int| 0 <= j < s2.len() && s2[j].kind == kind;
                    lemma_table_lookup(s2, kind, j);
                }
            }
            assert forall|kind: u64, id: EntityId|
                final(self).component_spec(kind, id) == old(self).component_spec(kind, id) by {
                if has_table(s1, kind) {
                    let j = choose|j: int| 0 <= j < s1.len() && s1[j].kind == kind;
                    lemma_table_lookup(s1, kind, j);
                    lemma_table_lookup(s2, kind, j);
                } else {
                    assert(!has_table(s2, kind)) by {
                        if has_table(s2, kind) {
                            let j = choose|j: int| 0 <= j < s2.len() && s2[j].kind == kind;
                            assert(s1[j].kind == kind);
                        }
                    }
                }
            }
            assert forall|p: int|
                0 <= p < s2.len() implies (#[trigger] s2[p]).entries@.len() == s2[p].dirty@.len()
                    && s2[p].entries@.len() <= self.next_id by {
                assert(s1[p].entries@.len() == s1[p].dirty@.len());
                assert(s1[p].entries@.len() <= old(self).next_id);
            }
            assert forall|p: int, e: int|
                0 <= p < s2.len() && 0 <= e < s2[p].entries@.len() && (
                #[trigger] s2[p].entries@[e]) is Some implies kind_consistent(
                s2[p].kind,
                s2[p].entries@[e]->0,
            ) by {
                assert(s2[p].entries@[e] == s1[p].entries@[e]);
                assert(s1[p].entries@[e] is Some ==> kind_consistent(
                    s1[p].kind,
                    s1[p].entries@[e]->0,
                ));
            }
        }
    }

    /// Installs `value` as the singleton resource of type `key`,
    /// replacing any earlier instance; no other resource changes.
    pub fn insert_resource(&mut self, key: u64, value: ResourceValue)
        requires
            old(self).well_formed(),
        ensures
            final(self).well_formed(),
            final(self).resource_spec(key) == Some(value),
            forall|k2: u64| k2 != key ==> final(self).resource_spec(k2) == old(self).resource_spec(
                k2,
            ),
            final(self).tables@ == old(self).tables@,
            final(self).relationships@ == old(self).relationships@,
            final(self).next_id == old(self).next_id,
    {
        let found = self.find_resource(key);
        match found {
            Some(i) => {
                let mut pair = (key, value);
                core::mem::swap(&mut self.resources[i], &mut pair);
                proof {
                    let s1 = old(self).resources@;
                    let s2 = self.resources@;
                    assert(s2 =~= s1.update(i as int, (key, value)));
                    assert forall|p: int, q: int|
                        0 <= p < q < s2.len() implies s2[p].0 != s2[q].0 by {
                        assert(s1[p].0 != s1[q].0);
                    }
                    lemma_value_of(s2, key, i as int);
                    assert forall|k2: u64|
                        k2 != key implies final(self).resource_spec(k2) == old(
                        self,
                    ).resource_spec(k2) by {
                        if has_key(s1, k2) {
                            let j = choose|j: int| 0 <= j < s1.len() && s1[j].0 == k2;
                            assert(j != i as int);
                            lemma_value_of(s1, k2, j);
                            lemma_value_of(s2, k2, j);
                        } else {
                            assert(!has_key(s2, k2)) by {
                                if has_key(s2, k2) {
                                    let j = choose|j: int| 0 <= j < s2.len() && s2[j].0 == k2;
                                    assert(j != i as int);
                                    assert(s1[j].0 == k2);
                                }
                            }
                        }
                    }
                }
            },
            None => {
                let ghost s1 = self.resources@;
                self.resources.push((key, value));
                proof {
                    let s2 = self.resources@;
                    let i = s1.len() as int;
                    assert forall|p: int, q: int|
                        0 <= p < q < s2.len() implies s2[p].0 != s2[q].0 by {
                        if q < i {
                        } else {
                            assert(s2[q].0 == key);
                            assert(s1[p].0 != key);
                        }
                    }
                    lemma_value_of(s2, key, i);
                    assert forall|k2: u64|
                        k2 != key implies final(self).resource_spec(k2) == old(
                        self,
                    ).resource_spec(k2) by {
                        if has_key(s1, k2) {
                            let j = choose|j: int| 0 <= j < s1.len() && s1[j].0 == k2;
                            lemma_value_of(s1, k2, j);
                            lemma_value_of(s2, k2, j);
                        } else {
                            assert(!has_key(s2, k2)) by {
                                if has_key(s2, k2) {
                                    let j = choose|j: int| 0 <= j < s2.len() && s2[j].0 == k2;
                                    assert(j < i);
                                    assert(s1[j].0 == k2);
                                }
                            }
                        }
                    }
                }
            },
        }
    }

    /// Removes and returns the resource of type `key`, so that a system
    /// may mutate it and reinstall it; absent resources return nothing
    /// and change nothing.
    pub fn take_resource(&mut self, key: u64) -> (r: Option<ResourceValue>)
        requires
            old(self).well_formed(),
        ensures
            final(self).well_formed(),
            r == old(self).resource_spec(key),
            final(self).resource_spec(key) is None,
            forall|k2: u64| k2 != key ==> final(self).resource_spec(k2) == old(self).resource_spec(
                k2,
            ),
            final(self).tables@ == old(self).tables@,
            final(self).relationships@ == old(self).relationships@,
            final(self).next_id == old(self).next_id,
    {
        match self.find_resource(key) {
            Some(i) => {
                proof {
                    lemma_value_of(self.resources@, key, i as int);
                    lemma_remove_pair(self.resources@, i as int);
                }
                let pair = self.resources.remove(i);
                Some(pair.1)
            },
            None => None,
        }
    }

    /// Registers an empty relationship graph under `kind`; a kind
    /// already registered keeps its graph (the key is idempotent).
    pub fn define_relationship(&mut self, kind: u64)
        requires
            old(self).well_formed(),
        ensures
            final(self).well_formed(),
            final(self).relationship_spec(kind) is Some,
            old(self).relationship_spec(kind) is Some ==> *final(self) == *old(self),
            old(self).relationship_spec(kind) is None ==> (final(self).relationship_spec(
                kind,
            )->0).edges@.len() == 0,
            forall|k2: u64|
                k2 != kind ==> final(self).relationship_spec(k2) == old(self).relationship_spec(
                    k2,
                ),
            final(self).tables@ == old(self).tables@,
            final(self).resources@ == old(self).resources@,
            final(self).next_id == old(self).next_id,
    {
        match self.find_relationship(kind) {
            Some(i) => {
                proof {
                    lemma_value_of(self.relationships@, kind, i as int);
                }
            },
            None => {
                let ghost s1 = self.relationships@;
                self.relationships.push((kind, RelationshipGraph::new()));
                proof {
                    let s2 = self.relationships@;
                    let i = s1.len() as int;
                    assert forall|p: int, q: int|
                        0 <= p < q < s2.len() implies s2[p].0 != s2[q].0 by {
                        if q < i {
                        } else {
                            assert(s2[q].0 == kind);
                            assert(s1[p].0 != kind);
                        }
                    }
                    lemma_value_of(s2, kind, i);
                    assert forall|k2: u64|
                        k2 != kind implies final(self).relationship_spec(k2) == old(
                        self,
                    ).relationship_spec(k2) by {
                        if has_key(s1, k2) {
                            let j = choose|j: int| 0 <= j < s1.len() && s1[j].0 == k2;
                            lemma_value_of(s1, k2, j);
                            lemma_value_of(s2, k2, j);
                        } else {
                            assert(!has_key(s2, k2)) by {
                                if has_key(s2, k2) {
                                    let j = choose|j: int| 0 <= j < s2.len() && s2[j].0 == k2;
                                    assert(j < i);
                                    assert(s1[j].0 == k2);
                                }
                            }
                        }
                    }
                }
            },
        }
    }

    /// Records the edge `source -> target` in the relationship graph of
    /// kind `kind`, reporting whether that kind is registered; an
    /// unregistered kind changes nothing.
    pub fn add_relationship_edge(&mut self, kind: u64, source: EntityId, target: EntityId) -> (ok:
        bool)
        requires
            old(self).well_formed(),
        ensures
            final(self).well_formed(),
            ok == old(self).relationship_spec(kind) is Some,
            !ok ==> *final(self) == *old(self),
            ok ==> final(self).relationship_spec(kind) is Some && {
                let g0 = old(self).relationship_spec(kind)->0;
                let g1 = final(self).relationship_spec(kind)->0;
                &&& crate::relationship::has_edge(g0, source, target) ==> g1.edges@ == g0.edges@
                &&& !crate::relationship::has_edge(g0, source, target) ==> g1.edges@
                    == g0.edges@.push((source, target))
            },
            forall|k2: u64|
                k2 != kind ==> final(self).relationship_spec(k2) == old(self).relationship_spec(
                    k2,
                ),
            final(self).tables@ == old(self).tables@,
            final(self).resources@ == old(self).resources@,
            final(self).next_id == old(self).next_id,
    {
        match self.find_relationship(kind) {
            Some(i) => {
                proof {
                    lemma_value_of(old(self).relationships@, kind, i as int);
                }
                let mut pair: (u64, RelationshipGraph) = (0, RelationshipGraph::new());
                core::mem::swap(&mut self.relationships[i], &mut pair);
                let ghost g0 = pair.1;
                pair.0 = kind;
                pair.1.add_edge(source, target);
                let ghost g1 = pair.1;
                core::mem::swap(&mut self.relationships[i], &mut pair);
                proof {
                    let s1 = old(self).relationships@;
                    let s2 = self.relationships@;
                    assert(s2 =~= s1.update(i as int, (kind, g1)));
                    assert forall|p: int, q: int|
                        0 <= p < q < s2.len() implies s2[p].0 != s2[q].0 by {
                        assert(s1[p].0 != s1[q].0);
                    }
                    lemma_value_of(s2, kind, i as int);
                    assert forall|k2: u64|
                        k2 != kind implies final(self).relationship_spec(k2) == old(
                        self,
                    ).relationship_spec(k2) by {
                        if has_key(s1, k2) {
                            let j = choose|j: int| 0 <= j < s1.len() && s1[j].0 == k2;
                            assert(j != i as int);
                            lemma_value_of(s1, k2, j);
                            lemma_value_of(s2, k2, j);
                        } else {
                            assert(!has_key(s2, k2)) by {
                                if has_key(s2, k2) {
                                    let j = choose|j: int| 0 <= j < s2.len() && s2[j].0 == k2;
                                    assert(j != i as int);
                                    assert(s1[j].0 == k2);
                                }
                            }
                        }
                    }
                }
                true
            },
            None => false,
        }
    }

    /// Every sprite component currently stored, in entity-id order:
    /// what the render passes draw.
    pub fn gather_sprites(&self) -> (r: Vec<Sprite>)
        requires
            self.well_formed(),
        ensures
            r@ == if has_table(self.tables@, SPRITE_COMPONENT) {
                sprites_of(table_of(self.tables@, SPRITE_COMPONENT).entries@)
            } else {
                Seq::<Sprite>::empty()
            },
    {
        let mut out: Vec<Sprite> = Vec::new();
        match self.find_table(SPRITE_COMPONENT) {
            Some(ti) => {
                proof {
                    self.lemma_table_of(SPRITE_COMPONENT, ti as int);
                    assert(self.tables@[ti as int].entries@.subrange(0, 0) =~= Seq::<
                        Option<ComponentValue>,
                    >::empty());
                }
                let mut e: usize = 0;
                while e < self.tables[ti].entries.len()
                    invariant
                        ti < self.tables@.len(),
                        e <= self.tables@[ti as int].entries@.len(),
                        out@ == sprites_of(
                            self.tables@[ti as int].entries@.subrange(0, e as int),
                        ),
                    decreases self.tables@[ti as int].entries@.len() - e,
                {
                    proof {
                        assert(self.tables@[ti as int].entries@.subrange(0, e + 1).drop_last()
                            =~= self.tables@[ti as int].entries@.subrange(0, e as int));
                        assert(self.tables@[ti as int].entries@.subrange(0, e + 1).last()
                            == self.tables@[ti as int].entries@[e as int]);
                    }
                    match &self.tables[ti].entries[e] {
                        Some(cv) => match cv {
                            ComponentValue::Sprite(s) => {
                                out.push(*s);
                            },
                            _ => {},
                        },
                        None => {},
                    }
                    e += 1;
                }
                proof {
                    assert(self.tables@[ti as int].entries@.subrange(
                        0,
                        self.tables@[ti as int].entries@.len() as int,
                    ) =~= self.tables@[ti as int].entries@);
                }
            },
            None => {},
        }
        out
    }
}

/// Removing one pair keeps the keys unique, drops exactly that pair's
/// key, and leaves every other key's value untouched.
pub proof fn lemma_remove_pair<T>(s: Seq<(u64, T)>, i: int)
    requires
        unique_keys(s),
        0 <= i < s.len(),
    ensures
        unique_keys(s.remove(i)),
        !has_key(s.remove(i), s[i].0),
        forall|key: u64| key != s[i].0 ==> (has_key(s.remove(i), key) <==> has_key(s, key)),
        forall|key: u64|
            key != s[i].0 && has_key(s, key) ==> value_of(s.remove(i), key) == value_of(s, key),
{
    let s2 = s.remove(i);
    assert(forall|j: int| 0 <= j < i ==> s2[j] == s[j]);
    assert(forall|j: int| i <= j < s2.len() ==> s2[j] == s[j + 1]);
    assert(!has_key(s2, s[i].0)) by {
        if has_key(s2, s[i].0) {
            let j = choose|j: int| 0 <= j < s2.len() && s2[j].0 == s[i].0;
            if j < i {
                assert(s[j].0 == s[i].0);
            } else {
                assert(s[j + 1].0 == s[i].0);
            }
        }
    }
    assert forall|key: u64| key != s[i].0 implies (has_key(s2, key) <==> has_key(s, key)) by {
        if has_key(s2, key) {
            let j = choose|j: int| 0 <= j < s2.len() && s2[j].0 == key;
            if j < i {
                assert(s[j].0 == key);
            } else {
                assert(s[j + 1].0 == key);
            }
        }
        if has_key(s, key) {
            let j = choose|j: int| 0 <= j < s.len() && s[j].0 == key;
            if j < i {
                assert(s2[j].0 == key);
            } else {
                assert(s2[j - 1].0 == key);
            }
        }
    }
    assert forall|key: u64|
        key != s[i].0 && has_key(s, key) implies value_of(s2, key) == value_of(s, key) by {
        let j = choose|j: int| 0 <= j < s.len() && s[j].0 == key;
        lemma_value_of(s, key, j);
        if j < i {
            lemma_value_of(s2, key, j);
        } else {
            lemma_value_of(s2, key, j - 1);
        }
    }
}

/// After a deletion, no registered relationship kind reports any edge
/// incident to the deleted id: `s2` here is the storage after
/// `delete(id)` on `s1`, related as `delete` ensures.
pub proof fn lemma_delete_no_incident_edges(s1: Storage, s2: Storage, id: EntityId)
    requires
        s2.well_formed(),
        s2.relationships@.len() == s1.relationships@.len(),
        forall|i: int|
            0 <= i < s1.relationships@.len() ==> (#[trigger] s2.relationships@[i]).0
                == s1.relationships@[i].0 && s2.relationships@[i].1.edges@
                == crate::relationship::without_incident(s1.relationships@[i].1.edges@, id),
    ensures
        forall|kind: u64, c: EntityId, p: EntityId|
            (c == id || p == id) && s2.relationship_spec(kind) is Some ==> !(
            #[trigger] crate::relationship::has_edge(s2.relationship_spec(kind)->0, c, p)),
{
    assert forall|kind: u64, c: EntityId, p: EntityId|
        (c == id || p == id) && s2.relationship_spec(kind) is Some implies !(
    #[trigger] crate::relationship::has_edge(s2.relationship_spec(kind)->0, c, p)) by {
        let i = choose|i: int|
            0 <= i < s2.relationships@.len() && s2.relationships@[i].0 == kind;
        lemma_value_of(s2.relationships@, kind, i);
        let g2 = s2.relationships@[i].1;
        crate::relationship::lemma_without_incident_membership(
            s1.relationships@[i].1.edges@,
            id,
            c,
            p,
        );
        if crate::relationship::has_edge(g2, c, p) {
            let j = choose|j: int| 0 <= j < g2.edges@.len() && g2.edges@[j] == (c, p);
            assert(g2.edges@.contains((c, p)));
        }
    }
}

/// A well-formed storage never reports the next unallocated id as
/// alive: every id carrying a component lies below the allocation
/// counter, so each id `insert` returns is distinct from every id alive
/// at that moment.
pub proof fn lemma_fresh_id_not_alive(s: Storage)
    requires
        s.well_formed(),
    ensures
        !s.alive(s.next_id),
{
    assert forall|kind: u64| s.component_spec(kind, s.next_id) is None by {
        if has_table(s.tables@, kind) {
            let j = choose|j: int| 0 <= j < s.tables@.len() && s.tables@[j].kind == kind;
            lemma_table_lookup(s.tables@, kind, j);
            assert(s.tables@[j].entries@.len() <= s.next_id);
        }
    }
}

} // verus!
