//! Dirty-driven transform-hierarchy propagation.
//!
//! Once per frame, at the render stage, the world matrix of every
//! entity whose transform changed — and of every relative whose
//! effective transform that change can reach — is recomputed into the
//! transform cache: an entity is recomputed when it is dirty, when some
//! descendant of it is dirty (a full-path recompute revisits
//! ancestors), or when an ancestor of it is recomputed (a recomputed
//! parent invalidates its children's world matrices even if their own
//! transform did not change). An entity with a transform but no
//! recorded parent is its own root: its world matrix is its local
//! matrix. Entities without a transform are never cached; as parents
//! they contribute their cached (identity-default) matrix.

use vstd::prelude::*;
use crate::math::{identity_spec, mat_mul_spec, Matrix4};
use crate::relationship::{targets_of, RelationshipGraph};
use crate::storage::{component_in, dirty_in, ComponentTable, ComponentValue, Storage, TRANSFORM_COMPONENT};
use crate::transform::{local_matrix_spec, Transform, TransformCache};
use crate::EntityId;

verus! {

/// The transform component of `id`, if any.
pub open spec fn transform_at(tables: Seq<ComponentTable>, id: EntityId) -> Option<Transform> {
    match component_in(tables, TRANSFORM_COMPONENT, id) {
        Some(cv) => if cv is Transform {
            Some(cv->Transform_0)
        } else {
            None
        },
        None => None,
    }
}

/// The local matrix of `id`: of its transform, or the identity when it
/// has none.
pub open spec fn local_of(tables: Seq<ComponentTable>, id: EntityId) -> Matrix4 {
    match transform_at(tables, id) {
        Some(t) => local_matrix_spec(t),
        None => identity_spec(),
    }
}

/// Whether the transform of `id` changed this frame.
pub open spec fn transform_dirty(tables: Seq<ComponentTable>, id: EntityId) -> bool {
    dirty_in(tables, TRANSFORM_COMPONENT, id)
}

/// Whether `e` is dirty or reaches a dirty entity downward (against the
/// child-to-parent edges) within `fuel` steps: `e` or some descendant
/// of `e` changed this frame.
pub open spec fn dirty_below(tables: Seq<ComponentTable>, g: RelationshipGraph, e: EntityId, fuel: nat) -> bool
    decreases fuel,
{
    transform_dirty(tables, e) || (fuel > 0 && exists|i: int|
        0 <= i < g.edges@.len() && g.edges@[i].1 == e && dirty_below(
            tables,
            g,
            g.edges@[i].0,
            (fuel - 1) as nat,
        ))
}

/// Whether `e` itself must be recomputed for its own sake: it is dirty
/// or an ancestor of a dirty entity. A chain that never repeats an edge
/// has at most `edges.len()` links, so that fuel decides the property.
pub open spec fn marked(tables: Seq<ComponentTable>, g: RelationshipGraph, e: EntityId) -> bool {
    dirty_below(tables, g, e, g.edges@.len() as nat)
}

/// Whether `e` lies in the recompute set: marked itself, or below a
/// marked ancestor whose recomputation cascades to it.
pub open spec fn needs_update(tables: Seq<ComponentTable>, g: RelationshipGraph, e: EntityId, fuel: nat) -> bool
    decreases fuel,
{
    marked(tables, g, e) || (fuel > 0 && exists|i: int|
        0 <= i < g.edges@.len() && g.edges@[i].0 == e && needs_update(
            tables,
            g,
            g.edges@[i].1,
            (fuel - 1) as nat,
        ))
}

/// Whether the propagation pass writes a new world matrix for `e`: `e`
/// lies in the recompute set and carries a transform.
pub open spec fn should_update(tables: Seq<ComponentTable>, g: RelationshipGraph, e: EntityId) -> bool {
    needs_update(tables, g, e, g.edges@.len() as nat) && transform_at(tables, e) is Some
}

/// Folds the parents of an entity over an accumulated matrix: each
/// parent's value — its freshly recomputed world matrix when the pass
/// recomputes it, its cached matrix otherwise — is multiplied onto the
/// left, first parent first. A recomputed parent past the fuel bound
/// (reachable only through a cycle of edges) contributes the identity.
pub open spec fn world_fold(
    tables: Seq<ComponentTable>,
    g: RelationshipGraph,
    cache: TransformCache,
    parents: Seq<EntityId>,
    acc: Matrix4,
    fuel: nat,
) -> Matrix4
    decreases fuel, parents.len(),
{
    if parents.len() == 0 {
        acc
    } else {
        let p = parents[0];
        let pv = if should_update(tables, g, p) {
            if fuel > 0 {
                world_matrix(tables, g, cache, p, (fuel - 1) as nat)
            } else {
                identity_spec()
            }
        } else {
            cache.matrix_of(p as int)
        };
        world_fold(
            tables,
            g,
            cache,
            parents.subrange(1, parents.len() as int),
            mat_mul_spec(pv, acc),
            fuel,
        )
    }
}

/// The world matrix the pass computes for `e`: its local matrix,
/// multiplied by each parent's world matrix (recomputed for parents in
/// the recompute set, cached for the rest), parents taken in edge
/// order.
pub open spec fn world_matrix(
    tables: Seq<ComponentTable>,
    g: RelationshipGraph,
    cache: TransformCache,
    e: EntityId,
    fuel: nat,
) -> Matrix4
    decreases fuel, targets_of(g.edges@, e).len() + 1,
{
    world_fold(tables, g, cache, targets_of(g.edges@, e), local_of(tables, e), fuel)
}

/// Two caches that agree on every entity the pass does not recompute
/// fold a parent list to the same matrix: recomputed parents never read
/// the cache, and the rest read the agreed entries.
proof fn lemma_world_fold_cache_agree(
    tables: Seq<ComponentTable>,
    g: RelationshipGraph,
    c0: TransformCache,
    c1: TransformCache,
    parents: Seq<EntityId>,
    acc: Matrix4,
    fuel: nat,
)
    requires
        forall|p: EntityId|
            !should_update(tables, g, p) ==> c1.matrix_of(p as int) == c0.matrix_of(p as int),
    ensures
        world_fold(tables, g, c1, parents, acc, fuel) == world_fold(
            tables,
            g,
            c0,
            parents,
            acc,
            fuel,
        ),
    decreases fuel, parents.len(),
{
    if parents.len() > 0 {
        let p = parents[0];
        let rest = parents.subrange(1, parents.len() as int);
        let pv0 = if should_update(tables, g, p) {
            if fuel > 0 {
                world_matrix(tables, g, c0, p, (fuel - 1) as nat)
            } else {
                identity_spec()
            }
        } else {
            c0.matrix_of(p as int)
        };
        let pv1 = if should_update(tables, g, p) {
            if fuel > 0 {
                world_matrix(tables, g, c1, p, (fuel - 1) as nat)
            } else {
                identity_spec()
            }
        } else {
            c1.matrix_of(p as int)
        };
        if fuel > 0 && should_update(tables, g, p) {
            lemma_world_matrix_cache_agree(tables, g, c0, c1, p, (fuel - 1) as nat);
        } else if !should_update(tables, g, p) {
            assert(c1.matrix_of(p as int) == c0.matrix_of(p as int));
        }
        assert(pv1 == pv0);
        assert(world_fold(tables, g, c0, parents, acc, fuel) == world_fold(
            tables,
            g,
            c0,
            rest,
            mat_mul_spec(pv0, acc),
            fuel,
        ));
        assert(world_fold(tables, g, c1, parents, acc, fuel) == world_fold(
            tables,
            g,
            c1,
            rest,
            mat_mul_spec(pv1, acc),
            fuel,
        ));
        lemma_world_fold_cache_agree(tables, g, c0, c1, rest, mat_mul_spec(pv0, acc), fuel);
    }
}

/// Two caches that agree on every entity the pass does not recompute
/// give every entity the same recomputed world matrix.
proof fn lemma_world_matrix_cache_agree(
    tables: Seq<ComponentTable>,
    g: RelationshipGraph,
    c0: TransformCache,
    c1: TransformCache,
    e: EntityId,
    fuel: nat,
)
    requires
        forall|p: EntityId|
            !should_update(tables, g, p) ==> c1.matrix_of(p as int) == c0.matrix_of(p as int),
    ensures
        world_matrix(tables, g, c1, e, fuel) == world_matrix(tables, g, c0, e, fuel),
    decreases fuel, targets_of(g.edges@, e).len() + 1,
{
    lemma_world_fold_cache_agree(
        tables,
        g,
        c0,
        c1,
        targets_of(g.edges@, e),
        local_of(tables, e),
        fuel,
    );
}

/// Propagation is idempotent within a frame: if one pass turns the
/// cache `c0` into `c1`, and a second pass with no intervening
/// transform, relationship or dirty-flag mutation turns `c1` into
/// `c2`, then `c2` equals `c1` on every entity.
pub proof fn lemma_propagation_idempotent(
    tables: Seq<ComponentTable>,
    g: RelationshipGraph,
    c0: TransformCache,
    c1: TransformCache,
    c2: TransformCache,
)
    requires
        forall|id: EntityId|
            c1.matrix_of(id as int) == if should_update(tables, g, id) {
                world_matrix(tables, g, c0, id, g.edges@.len() as nat)
            } else {
                c0.matrix_of(id as int)
            },
        forall|id: EntityId|
            c2.matrix_of(id as int) == if should_update(tables, g, id) {
                world_matrix(tables, g, c1, id, g.edges@.len() as nat)
            } else {
                c1.matrix_of(id as int)
            },
    ensures
        forall|id: EntityId| c2.matrix_of(id as int) == c1.matrix_of(id as int),
{
    assert forall|id: EntityId| c2.matrix_of(id as int) == c1.matrix_of(id as int) by {
        if should_update(tables, g, id) {
            lemma_world_matrix_cache_agree(tables, g, c0, c1, id, g.edges@.len() as nat);
        }
    }
}

/// An entity the pass updates carries a transform, so its id lies
/// below the allocation counter.
pub proof fn lemma_should_update_bound(storage: Storage, g: RelationshipGraph, e: EntityId)
    requires
        storage.well_formed(),
        should_update(storage.tables@, g, e),
    ensures
        e < storage.next_id,
{
    let tables = storage.tables@;
    assert(component_in(tables, TRANSFORM_COMPONENT, e) is Some);
    let j = choose|j: int| 0 <= j < tables.len() && tables[j].kind == TRANSFORM_COMPONENT;
    crate::storage::lemma_table_lookup(tables, TRANSFORM_COMPONENT, j);
    assert(tables[j].entries@.len() <= storage.next_id);
}

impl Storage {
    /// The transform component of `id`, if any.
    fn read_transform(&self, id: EntityId) -> (r: Option<Transform>)
        requires
            self.well_formed(),
        ensures
            r == transform_at(self.tables@, id),
    {
        match self.component(TRANSFORM_COMPONENT, id) {
            Some(cv) => match cv {
                ComponentValue::Transform(t) => Some(*t),
                _ => None,
            },
            None => None,
        }
    }
}

impl RelationshipGraph {
    /// Whether `e` or some descendant of `e` is dirty, within `fuel`
    /// downward steps.
    fn dirty_below_within(&self, storage: &Storage, e: EntityId, fuel: usize) -> (b: bool)
        requires
            storage.well_formed(),
        ensures
            b == dirty_below(storage.tables@, *self, e, fuel as nat),
        decreases fuel, 0nat,
    {
        if storage.dirty_state(TRANSFORM_COMPONENT, e) {
            return true;
        }
        let mut i: usize = 0;
        while i < self.edges.len()
            invariant
                storage.well_formed(),
                i <= self.edges@.len(),
                !transform_dirty(storage.tables@, e),
                forall|j: int|
                    0 <= j < i ==> !(self.edges@[j].1 == e && (fuel > 0 && dirty_below(
                        storage.tables@,
                        *self,
                        self.edges@[j].0,
                        (fuel - 1) as nat,
                    ))),
            decreases self.edges@.len() - i,
        {
            let edge = self.edges[i];
            if edge.1 == e && fuel > 0 {
                if self.dirty_below_within(storage, edge.0, fuel - 1) {
                    assert(self.edges@[i as int].1 == e && dirty_below(
                        storage.tables@,
                        *self,
                        self.edges@[i as int].0,
                        (fuel - 1) as nat,
                    ));
                    return true;
                }
            }
            i += 1;
        }
        false
    }

    /// Whether `e` lies in the recompute set, within `fuel` upward
    /// steps.
    fn needs_update_within(&self, storage: &Storage, e: EntityId, fuel: usize) -> (b: bool)
        requires
            storage.well_formed(),
        ensures
            b == needs_update(storage.tables@, *self, e, fuel as nat),
        decreases fuel, 0nat,
    {
        if self.dirty_below_within(storage, e, self.edges.len()) {
            return true;
        }
        let mut i: usize = 0;
        while i < self.edges.len()
            invariant
                storage.well_formed(),
                i <= self.edges@.len(),
                !marked(storage.tables@, *self, e),
                forall|j: int|
                    0 <= j < i ==> !(self.edges@[j].0 == e && (fuel > 0 && needs_update(
                        storage.tables@,
                        *self,
                        self.edges@[j].1,
                        (fuel - 1) as nat,
                    ))),
            decreases self.edges@.len() - i,
        {
            let edge = self.edges[i];
            if edge.0 == e && fuel > 0 {
                if self.needs_update_within(storage, edge.1, fuel - 1) {
                    assert(self.edges@[i as int].0 == e && needs_update(
                        storage.tables@,
                        *self,
                        self.edges@[i as int].1,
                        (fuel - 1) as nat,
                    ));
                    return true;
                }
            }
            i += 1;
        }
        false
    }

    /// Whether the pass writes a new world matrix for `e`.
    fn should_update_here(&self, storage: &Storage, e: EntityId) -> (b: bool)
        requires
            storage.well_formed(),
        ensures
            b == should_update(storage.tables@, *self, e),
    {
        if !self.needs_update_within(storage, e, self.edges.len()) {
            return false;
        }
        match storage.read_transform(e) {
            Some(_) => true,
            None => false,
        }
    }

    /// The world matrix of `e` over the given cache, within `fuel`
    /// upward steps.
    fn world_matrix_within(&self, storage: &Storage, cache: &TransformCache, e: EntityId, fuel: usize) -> (m: Matrix4)
        requires
            storage.well_formed(),
        ensures
            m == world_matrix(storage.tables@, *self, *cache, e, fuel as nat),
        decreases fuel,
    {
        let parents = self.successors(e);
        let mut acc = match storage.read_transform(e) {
            Some(t) => t.as_matrix4(),
            None => Matrix4::identity(),
        };
        let mut k: usize = 0;
        proof {
            assert(parents@.subrange(0, parents@.len() as int) =~= parents@);
        }
        while k < parents.len()
            invariant
                storage.well_formed(),
                k <= parents@.len(),
                parents@ == targets_of(self.edges@, e),
                world_fold(
                    storage.tables@,
                    *self,
                    *cache,
                    parents@.subrange(k as int, parents@.len() as int),
                    acc,
                    fuel as nat,
                ) == world_matrix(storage.tables@, *self, *cache, e, fuel as nat),
            decreases parents@.len() - k,
        {
            let p = parents[k];
            let pv: Matrix4 = if self.should_update_here(storage, p) {
                if fuel > 0 {
                    self.world_matrix_within(storage, cache, p, fuel - 1)
                } else {
                    Matrix4::identity()
                }
            } else {
                cache.get(p)
            };
            proof {
                let rest = parents@.subrange(k as int, parents@.len() as int);
                assert(rest[0] == parents@[k as int]);
                assert(rest.subrange(1, rest.len() as int) =~= parents@.subrange(
                    k + 1,
                    parents@.len() as int,
                ));
            }
            acc = pv.multiply(&acc);
            k += 1;
        }
        proof {
            assert(parents@.subrange(parents@.len() as int, parents@.len() as int) =~= Seq::<
                EntityId,
            >::empty());
        }
        acc
    }
}

/// Runs one propagation pass: over the child-of graph `g`, writes into
/// the cache the world matrix of exactly those entities the pass must
/// recompute, and leaves every other entity's cached matrix untouched.
pub fn compute_effective_transforms_system(
    storage: &Storage,
    g: &RelationshipGraph,
    cache: &mut TransformCache,
)
    requires
        storage.well_formed(),
    ensures
        forall|id: EntityId|
            final(cache).matrix_of(id as int) == if should_update(storage.tables@, *g, id) {
                world_matrix(storage.tables@, *g, *old(cache), id, g.edges@.len() as nat)
            } else {
                old(cache).matrix_of(id as int)
            },
    {
    let n = storage.next_entity_id();
    let fuel = g.edges.len();
    let mut updates: Vec<(EntityId, Matrix4)> = Vec::new();
    let mut id: usize = 0;
    while id < n
        invariant
            storage.well_formed(),
            id <= n,
            n == storage.next_id,
            fuel == g.edges@.len(),
            forall|j: int|
                0 <= j < updates@.len() ==> should_update(storage.tables@, *g, (#[trigger] updates@[j]).0)
                    && updates@[j].0 < id && updates@[j].1 == world_matrix(
                    storage.tables@,
                    *g,
                    *cache,
                    updates@[j].0,
                    g.edges@.len() as nat,
                ),
            forall|e: EntityId|
                e < id && should_update(storage.tables@, *g, e) ==> exists|j: int|
                    0 <= j < updates@.len() && (#[trigger] updates@[j]).0 == e,
            forall|j1: int, j2: int|
                0 <= j1 < j2 < updates@.len() ==> (#[trigger] updates@[j1]).0 < (
                #[trigger] updates@[j2]).0,
        decreases n - id,
    {
        let ghost ups0 = updates@;
        if g.should_update_here(storage, id) {
            let m = g.world_matrix_within(storage, cache, id, fuel);
            updates.push((id, m));
        }
        proof {
            assert forall|e: EntityId|
                e < id + 1 && should_update(storage.tables@, *g, e) implies exists|j: int|
                0 <= j < updates@.len() && (#[trigger] updates@[j]).0 == e by {
                if e == id {
                    assert(updates@[updates@.len() - 1].0 == e);
                } else {
                    let j = choose|j: int| 0 <= j < ups0.len() && (#[trigger] ups0[j]).0 == e;
                    assert(updates@[j].0 == e);
                }
            }
        }
        id += 1;
    }
    let mut k: usize = 0;
    while k < updates.len()
        invariant
            k <= updates@.len(),
            forall|j: int|
                0 <= j < updates@.len() ==> should_update(storage.tables@, *g, (#[trigger] updates@[j]).0)
                    && updates@[j].1 == world_matrix(
                    storage.tables@,
                    *g,
                    *old(cache),
                    updates@[j].0,
                    g.edges@.len() as nat,
                ),
            forall|e: EntityId|
                should_update(storage.tables@, *g, e) && e < storage.next_id ==> exists|j: int|
                    0 <= j < updates@.len() && (#[trigger] updates@[j]).0 == e,
            forall|e: EntityId|
                !should_update(storage.tables@, *g, e) ==> cache.matrix_of(e as int) == old(
                    cache,
                ).matrix_of(e as int),
            forall|j: int|
                0 <= j < k ==> cache.matrix_of((#[trigger] updates@[j]).0 as int)
                    == updates@[j].1,
            forall|j1: int, j2: int|
                0 <= j1 < j2 < updates@.len() ==> (#[trigger] updates@[j1]).0 < (
                #[trigger] updates@[j2]).0,
        decreases updates@.len() - k,
    {
        let (e, m) = updates[k];
        cache.set(e, m);
        k += 1;
    }
    proof {
        assert forall|id2: EntityId|
            final(cache).matrix_of(id2 as int) == if should_update(storage.tables@, *g, id2) {
                world_matrix(storage.tables@, *g, *old(cache), id2, g.edges@.len() as nat)
            } else {
                old(cache).matrix_of(id2 as int)
            } by {
            if should_update(storage.tables@, *g, id2) {
                lemma_should_update_bound(*storage, *g, id2);
            }
        }
    }
}

} // verus!
