//! Dependencies that a unit declares outside its unit file.
use crate::unit_rel::UnitRelations;
use vstd::prelude::*;

verus! {

/// The units named under one relation.
pub struct UnitDepEntry {
    pub relation: UnitRelations,
    pub names: Vec<String>,
}

/// For each relation at most one list of unit names.
pub struct UnitDepConf {
    pub deps: Vec<UnitDepEntry>,
}

/// The place among the first `upto` entries that holds `relation`.
pub open spec fn relation_index(deps: Seq<UnitDepEntry>, relation: UnitRelations, upto: int)
    -> Option<int>
    decreases upto,
{
    if upto <= 0 || upto > deps.len() {
        None
    } else {
        match relation_index(deps, relation, upto - 1) {
            Some(i) => Some(i),
            None => if deps[upto - 1].relation == relation {
                Some(upto - 1)
            } else {
                None
            },
        }
    }
}

/// No relation has two entries.
pub open spec fn relations_unique(deps: Seq<UnitDepEntry>) -> bool {
    forall|i: int, j: int|
        0 <= i < j < deps.len() ==> (#[trigger] deps[i]).relation != (#[trigger] deps[j]).relation
}

proof fn lemma_relation_index(deps: Seq<UnitDepEntry>, relation: UnitRelations, upto: int)
    requires
        0 <= upto <= deps.len(),
    ensures
        match relation_index(deps, relation, upto) {
            Some(i) => 0 <= i < upto && deps[i].relation == relation,
            None => forall|k: int| 0 <= k < upto ==> (#[trigger] deps[k]).relation != relation,
        },
    decreases upto,
{
    if upto > 0 {
        lemma_relation_index(deps, relation, upto - 1);
    }
}

proof fn lemma_relation_index_found(
    deps: Seq<UnitDepEntry>,
    relation: UnitRelations,
    i: int,
    upto: int,
)
    requires
        0 <= i < upto <= deps.len(),
        relation_index(deps, relation, i) is None,
        deps[i].relation == relation,
    ensures
        relation_index(deps, relation, upto) == Some(i),
    decreases upto - i,
{
    if upto > i + 1 {
        lemma_relation_index_found(deps, relation, i, upto - 1);
    }
}

impl UnitDepConf {
    pub fn new() -> (r: UnitDepConf)
        ensures
            r.deps@.len() == 0,
            relations_unique(r.deps@),
    {
        UnitDepConf { deps: Vec::new() }
    }

    /// Puts `names` under `relation`, in place of what was there.
    pub fn insert(&mut self, relation: UnitRelations, names: Vec<String>)
        requires
            relations_unique(old(self).deps@),
        ensures
            relations_unique(final(self).deps@),
            final(self).deps@ == match relation_index(
                old(self).deps@,
                relation,
                old(self).deps@.len() as int,
            ) {
                Some(i) => old(self).deps@.update(i, (UnitDepEntry { relation, names })),
                None => old(self).deps@.push((UnitDepEntry { relation, names })),
            },
    {
        proof {
            lemma_relation_index(self.deps@, relation, self.deps@.len() as int);
        }
        let mut i: usize = 0;
        while i < self.deps.len()
            invariant
                i <= self.deps.len(),
                self.deps@ == old(self).deps@,
                relations_unique(self.deps@),
                relation_index(self.deps@, relation, i as int) is None,
                forall|k: int| 0 <= k < i ==> (#[trigger] self.deps@[k]).relation != relation,
            decreases self.deps.len() - i,
        {
            if self.deps[i].relation == relation {
                proof {
                    lemma_relation_index_found(
                        self.deps@,
                        relation,
                        i as int,
                        self.deps@.len() as int,
                    );
                }
                self.deps.set(i, UnitDepEntry { relation, names });
                return ;
            }
            i += 1;
        }
        self.deps.push(UnitDepEntry { relation, names });
    }
}

} // verus!
