//! The dependency store: labelled edges between registered units.
use crate::unit_rel::{relation_carries, unit_relation_carries, UnitRelationAtom, UnitRelations};
use vstd::prelude::*;

verus! {

/// One edge: `source` declares `relation` towards `target`.
#[derive(Clone, Copy, PartialEq, Eq, Debug, Structural)]
pub struct UnitDepEdge {
    pub source: usize,
    pub relation: UnitRelations,
    pub target: usize,
}

/// The relation that an edge gives rise to in the opposite direction.
pub open spec fn relation_inverse(relation: UnitRelations) -> Option<UnitRelations> {
    match relation {
        UnitRelations::UnitTriggers => Some(UnitRelations::UnitTriggeredBy),
        UnitRelations::UnitTriggeredBy => Some(UnitRelations::UnitTriggers),
        UnitRelations::UnitBefore => Some(UnitRelations::UnitAfter),
        UnitRelations::UnitAfter => Some(UnitRelations::UnitBefore),
        _ => None,
    }
}

/// Computes [`relation_inverse`].
pub fn unit_relation_to_inverse(relation: UnitRelations) -> (r: Option<UnitRelations>)
    ensures
        r == relation_inverse(relation),
{
    match relation {
        UnitRelations::UnitTriggers => Some(UnitRelations::UnitTriggeredBy),
        UnitRelations::UnitTriggeredBy => Some(UnitRelations::UnitTriggers),
        UnitRelations::UnitBefore => Some(UnitRelations::UnitAfter),
        UnitRelations::UnitAfter => Some(UnitRelations::UnitBefore),
        _ => None,
    }
}

/// The targets of the edges that leave `unit` and carry `atom`, in the
/// order in which the edges were added.
pub open spec fn atom_targets(edges: Seq<UnitDepEdge>, unit: usize, atom: UnitRelationAtom) -> Seq<
    usize,
>
    decreases edges.len(),
{
    if edges.len() == 0 {
        Seq::empty()
    } else {
        let rest = atom_targets(edges.drop_last(), unit, atom);
        let e = edges.last();
        if e.source == unit && relation_carries(e.relation, atom) {
            rest.push(e.target)
        } else {
            rest
        }
    }
}

/// The edges after `source` has declared `relation` towards `target`: the
/// edge itself and, where the relation has an inverse, the edge back.
pub open spec fn dep_inserted(
    edges: Seq<UnitDepEdge>,
    source: usize,
    relation: UnitRelations,
    target: usize,
) -> Seq<UnitDepEdge> {
    let with_edge = edges.push(UnitDepEdge { source, relation, target });
    match relation_inverse(relation) {
        Some(inverse) => with_edge.push(
            UnitDepEdge { source: target, relation: inverse, target: source },
        ),
        None => with_edge,
    }
}

/// The dependency store.
pub struct UnitDep {
    edges: Vec<UnitDepEdge>,
}

impl View for UnitDep {
    type V = Seq<UnitDepEdge>;

    closed spec fn view(&self) -> Seq<UnitDepEdge> {
        self.edges@
    }
}

impl UnitDep {
    pub fn new() -> (r: UnitDep)
        ensures
            r@.len() == 0,
    {
        UnitDep { edges: Vec::new() }
    }

    /// Records that `source` declares `relation` towards `target`.
    pub fn insert(&mut self, source: usize, relation: UnitRelations, target: usize)
        ensures
            final(self)@ == dep_inserted(old(self)@, source, relation, target),
    {
        self.edges.push(UnitDepEdge { source, relation, target });
        match unit_relation_to_inverse(relation) {
            Some(inverse) => {
                self.edges.push(UnitDepEdge { source: target, relation: inverse, target: source });
            },
            None => {},
        }
    }

    /// The units that `unit` reaches over edges carrying `atom`.
    pub fn gets_atom(&self, unit: usize, atom: UnitRelationAtom) -> (r: Vec<usize>)
        ensures
            r@ == atom_targets(self@, unit, atom),
    {
        let mut out: Vec<usize> = Vec::new();
        let mut i: usize = 0;
        while i < self.edges.len()
            invariant
                i <= self.edges.len(),
                out@ == atom_targets(self@.take(i as int), unit, atom),
            decreases self.edges.len() - i,
        {
            let e = self.edges[i];
            proof {
                assert(self@.take(i + 1).drop_last() == self@.take(i as int));
                assert(self@.take(i + 1).last() == e);
            }
            if e.source == unit && unit_relation_carries(e.relation, atom) {
                out.push(e.target);
            }
            i += 1;
        }
        proof {
            assert(self@.take(self@.len() as int) == self@);
        }
        out
    }

    /// Forgets every edge.
    pub fn clear(&mut self)
        ensures
            final(self)@.len() == 0,
    {
        self.edges.clear();
    }
}

} // verus!
