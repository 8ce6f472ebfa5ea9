//! Directed relationship graphs between entities.
//!
//! An edge `(source, target)` records "source is related to target" for
//! one relationship kind; under child-of semantics the source is the
//! child and the target its parent.

use vstd::prelude::*;
use crate::EntityId;

verus! {

broadcast use vstd::seq_lib::lemma_seq_contains_after_push;

/// The relationship kind of the built-in child-of hierarchy: an edge
/// points from a child entity to its parent.
pub const CHILD_OF: u64 = 1;

/// A directed edge set over entity ids for one relationship kind.
#[derive(Clone, PartialEq, Eq, Debug)]
pub struct RelationshipGraph {
    pub edges: Vec<(EntityId, EntityId)>,
}

/// Whether the graph holds the edge `source -> target`.
pub open spec fn has_edge(g: RelationshipGraph, source: EntityId, target: EntityId) -> bool {
    exists|i: int| 0 <= i < g.edges@.len() && g.edges@[i] == (source, target)
}

/// Whether `source` has any outgoing edge (under child-of semantics:
/// any recorded parent).
pub open spec fn has_outgoing_edge(g: RelationshipGraph, source: EntityId) -> bool {
    exists|i: int| 0 <= i < g.edges@.len() && g.edges@[i].0 == source
}

/// Whether `to` can be reached from `from` by following at least one and
/// at most `fuel + 1` edges forward.
pub open spec fn reaches(g: RelationshipGraph, from: EntityId, to: EntityId, fuel: nat) -> bool
    decreases fuel,
{
    exists|i: int|
        0 <= i < g.edges@.len() && g.edges@[i].0 == from && (g.edges@[i].1 == to || (fuel > 0
            && reaches(g, g.edges@[i].1, to, (fuel - 1) as nat)))
}

/// Whether `to` is a transitive parent of `from`: reachable by following
/// edges forward. A chain that never repeats an edge has at most
/// `edges.len()` links, so that fuel decides the full transitive closure.
pub open spec fn is_ancestor(g: RelationshipGraph, from: EntityId, to: EntityId) -> bool {
    reaches(g, from, to, g.edges@.len() as nat)
}

/// The sources of the edges in `s` whose target is `target`, in edge
/// order: under child-of semantics, the children of `target`.
pub open spec fn sources_of(s: Seq<(EntityId, EntityId)>, target: EntityId) -> Seq<EntityId>
    decreases s.len(),
{
    if s.len() == 0 {
        Seq::empty()
    } else if s.last().1 == target {
        sources_of(s.drop_last(), target).push(s.last().0)
    } else {
        sources_of(s.drop_last(), target)
    }
}

/// The targets of the edges in `s` whose source is `source`, in edge
/// order: under child-of semantics, the parents of `source`.
pub open spec fn targets_of(s: Seq<(EntityId, EntityId)>, source: EntityId) -> Seq<EntityId>
    decreases s.len(),
{
    if s.len() == 0 {
        Seq::empty()
    } else if s.last().0 == source {
        targets_of(s.drop_last(), source).push(s.last().1)
    } else {
        targets_of(s.drop_last(), source)
    }
}

/// The edges of `s` that do not touch `id`, in order.
pub open spec fn without_incident(s: Seq<(EntityId, EntityId)>, id: EntityId) -> Seq<
    (EntityId, EntityId),
> {
    s.filter(|e: (EntityId, EntityId)| e.0 != id && e.1 != id)
}

/// No edge incident to `id` survives `without_incident`, and every
/// other edge does.
pub proof fn lemma_without_incident_membership(
    s: Seq<(EntityId, EntityId)>,
    id: EntityId,
    source: EntityId,
    target: EntityId,
)
    ensures
        without_incident(s, id).contains((source, target)) <==> (s.contains((source, target))
            && source != id && target != id),
    decreases s.len(),
{
    reveal(Seq::filter);
    if s.len() > 0 {
        let prev = s.drop_last();
        lemma_without_incident_membership(prev, id, source, target);
        assert(forall|i: int| 0 <= i < prev.len() ==> prev[i] == s[i]);
        if s.last().0 != id && s.last().1 != id {
            assert(without_incident(s, id) == without_incident(prev, id).push(s.last()));
        } else {
            assert(without_incident(s, id) == without_incident(prev, id));
        }
        if s.contains((source, target)) {
            let i = choose|i: int| 0 <= i < s.len() && s[i] == (source, target);
            if i < s.len() - 1 {
                assert(prev[i] == (source, target));
                assert(prev.contains((source, target)));
            }
        }
        if prev.contains((source, target)) {
            let i = choose|i: int| 0 <= i < prev.len() && prev[i] == (source, target);
            assert(s[i] == (source, target));
        }
    }
}

/// The ids in `[0, n)` without an outgoing edge, in increasing order:
/// the entry points for bottom-up traversal.
pub open spec fn leaves_spec(g: RelationshipGraph, n: nat) -> Seq<EntityId>
    decreases n,
{
    if n == 0 {
        Seq::empty()
    } else if !has_outgoing_edge(g, (n - 1) as usize) {
        leaves_spec(g, (n - 1) as nat).push((n - 1) as usize)
    } else {
        leaves_spec(g, (n - 1) as nat)
    }
}

/// Every entity reached by following edges forward is the target of some
/// edge.
proof fn lemma_reached_is_target(g: RelationshipGraph, from: EntityId, to: EntityId, fuel: nat)
    requires
        reaches(g, from, to, fuel),
    ensures
        exists|i: int| 0 <= i < g.edges@.len() && g.edges@[i].1 == to,
    decreases fuel,
{
    let i = choose|i: int|
        0 <= i < g.edges@.len() && g.edges@[i].0 == from && (g.edges@[i].1 == to || (fuel > 0
            && reaches(g, g.edges@[i].1, to, (fuel - 1) as nat)));
    if g.edges@[i].1 == to {
    } else {
        lemma_reached_is_target(g, g.edges@[i].1, to, (fuel - 1) as nat);
    }
}

/// Membership in `leaves_spec`: exactly the ids below the bound that
/// have no outgoing edge.
pub proof fn lemma_leaves_membership(g: RelationshipGraph, n: nat, id: EntityId)
    ensures
        leaves_spec(g, n).contains(id) <==> (id < n && !has_outgoing_edge(g, id)),
    decreases n,
{
    if n > 0 {
        lemma_leaves_membership(g, (n - 1) as nat, id);
    }
}

/// Membership in `sources_of`: exactly the sources of matching edges.
pub proof fn lemma_sources_membership(s: Seq<(EntityId, EntityId)>, target: EntityId, id: EntityId)
    ensures
        sources_of(s, target).contains(id) <==> (exists|i: int|
            0 <= i < s.len() && s[i] == (id, target)),
    decreases s.len(),
{
    if s.len() > 0 {
        let prev = s.drop_last();
        lemma_sources_membership(prev, target, id);
        assert(forall|i: int| 0 <= i < prev.len() ==> prev[i] == s[i]);
        if sources_of(s, target).contains(id) {
            if sources_of(prev, target).contains(id) {
                let i = choose|i: int| 0 <= i < prev.len() && prev[i] == (id, target);
                assert(s[i] == (id, target));
            } else {
                assert(s.last().1 == target && s.last().0 == id);
                assert(s[s.len() - 1] == (id, target));
            }
        }
        if exists|i: int| 0 <= i < s.len() && s[i] == (id, target) {
            let i = choose|i: int| 0 <= i < s.len() && s[i] == (id, target);
            if i < s.len() - 1 {
                assert(prev[i] == (id, target));
                assert(sources_of(prev, target).contains(id));
            } else {
                assert(s.last() == (id, target));
            }
        }
    }
}

/// Membership in `targets_of`: exactly the targets of matching edges.
pub proof fn lemma_targets_membership(s: Seq<(EntityId, EntityId)>, source: EntityId, id: EntityId)
    ensures
        targets_of(s, source).contains(id) <==> (exists|i: int|
            0 <= i < s.len() && s[i] == (source, id)),
    decreases s.len(),
{
    if s.len() > 0 {
        let prev = s.drop_last();
        lemma_targets_membership(prev, source, id);
        assert(forall|i: int| 0 <= i < prev.len() ==> prev[i] == s[i]);
        if targets_of(s, source).contains(id) {
            if targets_of(prev, source).contains(id) {
                let i = choose|i: int| 0 <= i < prev.len() && prev[i] == (source, id);
                assert(s[i] == (source, id));
            } else {
                assert(s.last().0 == source && s.last().1 == id);
                assert(s[s.len() - 1] == (source, id));
            }
        }
        if exists|i: int| 0 <= i < s.len() && s[i] == (source, id) {
            let i = choose|i: int| 0 <= i < s.len() && s[i] == (source, id);
            if i < s.len() - 1 {
                assert(prev[i] == (source, id));
                assert(targets_of(prev, source).contains(id));
            } else {
                assert(s.last() == (source, id));
            }
        }
    }
}

impl RelationshipGraph {
    /// An empty graph.
    pub fn new() -> (r: RelationshipGraph)
        ensures
            r.edges@.len() == 0,
    {
        RelationshipGraph { edges: Vec::new() }
    }

    /// Whether the edge `source -> target` is recorded.
    pub fn contains_edge(&self, source: EntityId, target: EntityId) -> (b: bool)
        ensures
            b == has_edge(*self, source, target),
    {
        let mut i: usize = 0;
        while i < self.edges.len()
            invariant
                i <= self.edges@.len(),
                forall|j: int| 0 <= j < i ==> self.edges@[j] != (source, target),
            decreases self.edges@.len() - i,
        {
            let e = self.edges[i];
            if e.0 == source && e.1 == target {
                return true;
            }
            i += 1;
        }
        false
    }

    /// Records the edge `source -> target`; the edge set keeps set
    /// semantics, so recording a present edge changes nothing.
    pub fn add_edge(&mut self, source: EntityId, target: EntityId)
        ensures
            has_edge(*old(self), source, target) ==> final(self).edges@ == old(self).edges@,
            !has_edge(*old(self), source, target) ==> final(self).edges@ == old(self).edges@.push(
                (source, target),
            ),
    {
        if !self.contains_edge(source, target) {
            self.edges.push((source, target));
        }
    }

    /// Removes every edge whose source or target is `id`, keeping the
    /// remaining edges in order.
    pub fn remove_incident_edges(&mut self, id: EntityId)
        ensures
            final(self).edges@ == without_incident(old(self).edges@, id),
    {
        let mut kept: Vec<(EntityId, EntityId)> = Vec::new();
        let mut i: usize = 0;
        proof {
            assert(self.edges@.subrange(0, 0) =~= Seq::<(EntityId, EntityId)>::empty());
            reveal_with_fuel(Seq::filter, 2);
        }
        while i < self.edges.len()
            invariant
                i <= self.edges@.len(),
                kept@ == without_incident(self.edges@.subrange(0, i as int), id),
            decreases self.edges@.len() - i,
        {
            let e = self.edges[i];
            proof {
                assert(self.edges@.subrange(0, i + 1).drop_last() =~= self.edges@.subrange(
                    0,
                    i as int,
                ));
                assert(self.edges@.subrange(0, i + 1).last() == self.edges@[i as int]);
                reveal(Seq::filter);
            }
            if e.0 != id && e.1 != id {
                kept.push(e);
            }
            i += 1;
        }
        proof {
            assert(self.edges@.subrange(0, self.edges@.len() as int) =~= self.edges@);
        }
        self.edges = kept;
    }

    /// The children of `target`, in edge order; absent when `target` has
    /// no recorded child.
    pub fn sources(&self, target: EntityId) -> (r: Option<Vec<EntityId>>)
        ensures
            match r {
                Some(v) => v@ == sources_of(self.edges@, target) && v@.len() > 0,
                None => sources_of(self.edges@, target).len() == 0,
            },
    {
        let mut found: Vec<EntityId> = Vec::new();
        let mut i: usize = 0;
        while i < self.edges.len()
            invariant
                i <= self.edges@.len(),
                found@ == sources_of(self.edges@.subrange(0, i as int), target),
            decreases self.edges@.len() - i,
        {
            let e = self.edges[i];
            proof {
                assert(self.edges@.subrange(0, i + 1).drop_last() =~= self.edges@.subrange(
                    0,
                    i as int,
                ));
                assert(self.edges@.subrange(0, i + 1).last() == self.edges@[i as int]);
            }
            if e.1 == target {
                found.push(e.0);
            }
            i += 1;
        }
        proof {
            assert(self.edges@.subrange(0, self.edges@.len() as int) =~= self.edges@);
        }
        if found.len() == 0 {
            None
        } else {
            Some(found)
        }
    }

    /// The parents of `source`, in edge order.
    pub fn successors(&self, source: EntityId) -> (r: Vec<EntityId>)
        ensures
            r@ == targets_of(self.edges@, source),
    {
        let mut found: Vec<EntityId> = Vec::new();
        let mut i: usize = 0;
        while i < self.edges.len()
            invariant
                i <= self.edges@.len(),
                found@ == targets_of(self.edges@.subrange(0, i as int), source),
            decreases self.edges@.len() - i,
        {
            let e = self.edges[i];
            proof {
                assert(self.edges@.subrange(0, i + 1).drop_last() =~= self.edges@.subrange(
                    0,
                    i as int,
                ));
                assert(self.edges@.subrange(0, i + 1).last() == self.edges@[i as int]);
            }
            if e.0 == source {
                found.push(e.1);
            }
            i += 1;
        }
        proof {
            assert(self.edges@.subrange(0, self.edges@.len() as int) =~= self.edges@);
        }
        found
    }

    /// Whether `to` can be reached from `from` within `fuel + 1` forward
    /// steps.
    fn reaches_within(&self, from: EntityId, to: EntityId, fuel: usize) -> (b: bool)
        ensures
            b == reaches(*self, from, to, fuel as nat),
        decreases fuel, 0nat,
    {
        let mut i: usize = 0;
        while i < self.edges.len()
            invariant
                i <= self.edges@.len(),
                forall|j: int|
                    0 <= j < i ==> !(self.edges@[j].0 == from && (self.edges@[j].1 == to || (fuel
                        > 0 && reaches(*self, self.edges@[j].1, to, (fuel - 1) as nat)))),
            decreases self.edges@.len() - i,
        {
            let e = self.edges[i];
            if e.0 == from {
                if e.1 == to {
                    assert(self.edges@[i as int].0 == from && self.edges@[i as int].1 == to);
                    return true;
                }
                if fuel > 0 {
                    if self.reaches_within(e.1, to, fuel - 1) {
                        assert(self.edges@[i as int].0 == from && reaches(
                            *self,
                            self.edges@[i as int].1,
                            to,
                            (fuel - 1) as nat,
                        ));
                        return true;
                    }
                }
            }
            i += 1;
        }
        false
    }

    /// The transitive parents of `id`, each listed once, discovered in
    /// edge order.
    pub fn ancestors(&self, id: EntityId) -> (r: Vec<EntityId>)
        ensures
            forall|a: EntityId| r@.contains(a) <==> is_ancestor(*self, id, a),
            forall|i: int, j: int| 0 <= i < j < r@.len() ==> r@[i] != r@[j],
    {
        let mut found: Vec<EntityId> = Vec::new();
        let mut i: usize = 0;
        let fuel = self.edges.len();
        while i < self.edges.len()
            invariant
                i <= self.edges@.len(),
                fuel == self.edges@.len(),
                forall|a: EntityId|
                    found@.contains(a) ==> is_ancestor(*self, id, a),
                forall|j: int| #![auto]
                    0 <= j < i && is_ancestor(*self, id, self.edges@[j].1) ==> found@.contains(
                        self.edges@[j].1,
                    ),
                forall|p: int, q: int| 0 <= p < q < found@.len() ==> found@[p] != found@[q],
            decreases self.edges@.len() - i,
        {
            let t = self.edges[i].1;
            if !contains_id(&found, t) {
                if self.reaches_within(id, t, fuel) {
                    found.push(t);
                }
            }
            i += 1;
        }
        proof {
            assert forall|a: EntityId| found@.contains(a) <==> is_ancestor(*self, id, a) by {
                if is_ancestor(*self, id, a) {
                    lemma_reached_is_target(*self, id, a, self.edges@.len() as nat);
                }
            }
        }
        found
    }

    /// The ids in `[0, n)` with no outgoing edge, in increasing order.
    pub fn leaves(&self, n: usize) -> (r: Vec<EntityId>)
        ensures
            r@ == leaves_spec(*self, n as nat),
    {
        let mut found: Vec<EntityId> = Vec::new();
        let mut i: usize = 0;
        while i < n
            invariant
                i <= n,
                found@ == leaves_spec(*self, i as nat),
            decreases n - i,
        {
            if !self.has_any_target(i) {
                found.push(i);
            }
            i += 1;
        }
        found
    }

    /// Whether `source` has any outgoing edge.
    fn has_any_target(&self, source: EntityId) -> (b: bool)
        ensures
            b == has_outgoing_edge(*self, source),
    {
        let mut i: usize = 0;
        while i < self.edges.len()
            invariant
                i <= self.edges@.len(),
                forall|j: int| 0 <= j < i ==> self.edges@[j].0 != source,
            decreases self.edges@.len() - i,
        {
            if self.edges[i].0 == source {
                return true;
            }
            i += 1;
        }
        false
    }
}

/// Whether `v` holds `x`.
pub fn contains_id(v: &Vec<EntityId>, x: EntityId) -> (b: bool)
    ensures
        b == v@.contains(x),
{
    let mut i: usize = 0;
    while i < v.len()
        invariant
            i <= v@.len(),
            forall|j: int| 0 <= j < i ==> v@[j] != x,
        decreases v@.len() - i,
    {
        if v[i] == x {
            return true;
        }
        i += 1;
    }
    false
}

} // verus!
