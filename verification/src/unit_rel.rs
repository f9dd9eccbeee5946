//! Relations between units and the atoms that the job engine reads off them.
use vstd::prelude::*;

verus! {

/// A relation that a unit may declare towards another unit.
#[derive(Clone, Copy, PartialEq, Eq, Debug, Hash, Structural)]
pub enum UnitRelations {
    UnitRequires,
    UnitWants,
    UnitAfter,
    UnitBefore,
    UnitConflicts,
    UnitOnFailure,
    UnitTriggers,
    UnitTriggeredBy,
    UnitPartOf,
    UnitPropagatesReloadTo,
    UnitPullInStart,
    UnitPullInStartIgnored,
    UnitPullInStop,
    UnitPullInStopIgnored,
    UnitPullInVerify,
    UnitPropagateStartFailure,
    UnitPropagateStopFailure,
    UnitPropagateStop,
    UnitPropagateRestart,
}

/// One elementary effect of a relation, as the job engine asks for it.
#[derive(Clone, Copy, PartialEq, Eq, Debug, Structural)]
pub enum UnitRelationAtom {
    UnitAtomPullInStart,
    UnitAtomPullInStartIgnored,
    UnitAtomPullInVerify,
    UnitAtomPullInStop,
    UnitAtomPullInStopIgnored,
    UnitAtomPropagateStop,
    UnitAtomPropagateRestart,
    UnitAtomPropagatesReloadTo,
    UnitAtomPropagateStartFailure,
    UnitAtomPropagateStopFailure,
    UnitAtomTriggers,
    UnitAtomTriggeredBy,
    UnitAtomBefore,
    UnitAtomAfter,
    UnitAtomOnFailure,
}

/// Whether an edge labelled `relation` carries `atom`.
///
/// Every atom is carried by the relation of the same name; beyond that,
/// `Requires` pulls in a start, `Wants` pulls in a start whose failure is
/// ignored, and `Conflicts` pulls in a stop.
pub open spec fn relation_carries(relation: UnitRelations, atom: UnitRelationAtom) -> bool {
    match atom {
        UnitRelationAtom::UnitAtomPullInStart => relation == UnitRelations::UnitRequires || relation
            == UnitRelations::UnitPullInStart,
        UnitRelationAtom::UnitAtomPullInStartIgnored => relation == UnitRelations::UnitWants
            || relation == UnitRelations::UnitPullInStartIgnored,
        UnitRelationAtom::UnitAtomPullInVerify => relation == UnitRelations::UnitPullInVerify,
        UnitRelationAtom::UnitAtomPullInStop => relation == UnitRelations::UnitConflicts || relation
            == UnitRelations::UnitPullInStop,
        UnitRelationAtom::UnitAtomPullInStopIgnored => relation
            == UnitRelations::UnitPullInStopIgnored,
        UnitRelationAtom::UnitAtomPropagateStop => relation == UnitRelations::UnitPropagateStop,
        UnitRelationAtom::UnitAtomPropagateRestart => relation
            == UnitRelations::UnitPropagateRestart,
        UnitRelationAtom::UnitAtomPropagatesReloadTo => relation
            == UnitRelations::UnitPropagatesReloadTo,
        UnitRelationAtom::UnitAtomPropagateStartFailure => relation
            == UnitRelations::UnitPropagateStartFailure,
        UnitRelationAtom::UnitAtomPropagateStopFailure => relation
            == UnitRelations::UnitPropagateStopFailure,
        UnitRelationAtom::UnitAtomTriggers => relation == UnitRelations::UnitTriggers,
        UnitRelationAtom::UnitAtomTriggeredBy => relation == UnitRelations::UnitTriggeredBy,
        UnitRelationAtom::UnitAtomBefore => relation == UnitRelations::UnitBefore,
        UnitRelationAtom::UnitAtomAfter => relation == UnitRelations::UnitAfter,
        UnitRelationAtom::UnitAtomOnFailure => relation == UnitRelations::UnitOnFailure,
    }
}

/// Decides [`relation_carries`].
pub fn unit_relation_carries(relation: UnitRelations, atom: UnitRelationAtom) -> (r: bool)
    ensures
        r == relation_carries(relation, atom),
{
    match atom {
        UnitRelationAtom::UnitAtomPullInStart => relation == UnitRelations::UnitRequires || relation
            == UnitRelations::UnitPullInStart,
        UnitRelationAtom::UnitAtomPullInStartIgnored => relation == UnitRelations::UnitWants
            || relation == UnitRelations::UnitPullInStartIgnored,
        UnitRelationAtom::UnitAtomPullInVerify => relation == UnitRelations::UnitPullInVerify,
        UnitRelationAtom::UnitAtomPullInStop => relation == UnitRelations::UnitConflicts || relation
            == UnitRelations::UnitPullInStop,
        UnitRelationAtom::UnitAtomPullInStopIgnored => relation
            == UnitRelations::UnitPullInStopIgnored,
        UnitRelationAtom::UnitAtomPropagateStop => relation == UnitRelations::UnitPropagateStop,
        UnitRelationAtom::UnitAtomPropagateRestart => relation
            == UnitRelations::UnitPropagateRestart,
        UnitRelationAtom::UnitAtomPropagatesReloadTo => relation
            == UnitRelations::UnitPropagatesReloadTo,
        UnitRelationAtom::UnitAtomPropagateStartFailure => relation
            == UnitRelations::UnitPropagateStartFailure,
        UnitRelationAtom::UnitAtomPropagateStopFailure => relation
            == UnitRelations::UnitPropagateStopFailure,
        UnitRelationAtom::UnitAtomTriggers => relation == UnitRelations::UnitTriggers,
        UnitRelationAtom::UnitAtomTriggeredBy => relation == UnitRelations::UnitTriggeredBy,
        UnitRelationAtom::UnitAtomBefore => relation == UnitRelations::UnitBefore,
        UnitRelationAtom::UnitAtomAfter => relation == UnitRelations::UnitAfter,
        UnitRelationAtom::UnitAtomOnFailure => relation == UnitRelations::UnitOnFailure,
    }
}

} // verus!
