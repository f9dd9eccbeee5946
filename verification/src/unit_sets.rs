//! The unit registry: every unit the manager knows, found by name and
//! referred to everywhere else by its place in the registry.
use crate::error::UnitActionError;
use crate::unit_state::UnitActiveState;
use vstd::prelude::*;
use vstd::string::StringSliceAdditionalSpecFns;

verus! {

/// The kind of a unit, given by the suffix of its name.
#[derive(Clone, Copy, PartialEq, Eq, Debug, Structural)]
pub enum UnitType {
    UnitService,
    UnitTarget,
    UnitSocket,
    UnitMount,
    UnitTimer,
}

/// How far loading a unit's description has come.
#[derive(Clone, Copy, PartialEq, Eq, Debug, Structural)]
pub enum UnitLoadState {
    UnitStub,
    UnitLoaded,
    UnitNotFound,
    UnitError,
    UnitMerged,
    UnitMasked,
}

/// What the registry keeps of one unit.
pub struct UnitX {
    pub id: String,
    pub unit_type: UnitType,
    pub load_state: UnitLoadState,
    pub active_state: UnitActiveState,
    pub ignore_on_isolate: bool,
}

/// A unit is load-complete once loading has been tried, whatever came of it.
pub open spec fn load_complete(state: UnitLoadState) -> bool {
    state != UnitLoadState::UnitStub
}

/// What asking a unit to be loaded answers, by the state loading left it
/// in: a malformed description is a bad request, a missing one is not
/// found, and a masked or untouched unit is invalid.
pub open spec fn load_outcome(state: UnitLoadState) -> Result<(), UnitActionError> {
    match state {
        UnitLoadState::UnitLoaded | UnitLoadState::UnitMerged => Ok(()),
        UnitLoadState::UnitError => Err(UnitActionError::UnitActionEBadR),
        UnitLoadState::UnitNotFound => Err(UnitActionError::UnitActionENoent),
        UnitLoadState::UnitMasked | UnitLoadState::UnitStub => Err(
            UnitActionError::UnitActionEInval,
        ),
    }
}

/// Whether a unit in this state counts as up for jobs that act only on
/// running units.
pub open spec fn active_or_reloading(state: UnitActiveState) -> bool {
    state == UnitActiveState::UnitActive || state == UnitActiveState::UnitReloading
}

impl UnitX {
    /// A unit that has just been named: not loaded, not active.
    pub fn new(id: String, unit_type: UnitType) -> (r: UnitX)
        ensures
            r.id == id,
            r.unit_type == unit_type,
            r.load_state == UnitLoadState::UnitStub,
            r.active_state == UnitActiveState::UnitInActive,
            !r.ignore_on_isolate,
    {
        UnitX {
            id,
            unit_type,
            load_state: UnitLoadState::UnitStub,
            active_state: UnitActiveState::UnitInActive,
            ignore_on_isolate: false,
        }
    }

    pub fn is_load_complete(&self) -> (r: bool)
        ensures
            r == load_complete(self.load_state),
    {
        self.load_state != UnitLoadState::UnitStub
    }

    pub fn try_load(&self) -> (r: Result<(), UnitActionError>)
        ensures
            r == load_outcome(self.load_state),
    {
        match self.load_state {
            UnitLoadState::UnitLoaded | UnitLoadState::UnitMerged => Ok(()),
            UnitLoadState::UnitError => Err(UnitActionError::UnitActionEBadR),
            UnitLoadState::UnitNotFound => Err(UnitActionError::UnitActionENoent),
            UnitLoadState::UnitMasked | UnitLoadState::UnitStub => Err(
                UnitActionError::UnitActionEInval,
            ),
        }
    }

    pub fn is_active_or_reloading(&self) -> (r: bool)
        ensures
            r == active_or_reloading(self.active_state),
    {
        self.active_state == UnitActiveState::UnitActive || self.active_state
            == UnitActiveState::UnitReloading
    }
}

/// The registry. A unit's place in it never changes while it is registered.
pub struct UnitSets {
    units: Vec<UnitX>,
}

impl View for UnitSets {
    type V = Seq<UnitX>;

    closed spec fn view(&self) -> Seq<UnitX> {
        self.units@
    }
}

/// No two entries share a name.
pub open spec fn names_unique(units: Seq<UnitX>) -> bool {
    forall|i: int, j: int|
        0 <= i < j < units.len() ==> (#[trigger] units[i]).id@ != (#[trigger] units[j]).id@
}

/// The first place at which `name` is registered among the first `upto`
/// entries, if any.
pub open spec fn name_index(units: Seq<UnitX>, name: Seq<char>, upto: int) -> Option<int>
    decreases upto,
{
    if upto <= 0 || upto > units.len() {
        None
    } else {
        match name_index(units, name, upto - 1) {
            Some(i) => Some(i),
            None => if units[upto - 1].id@ == name {
                Some(upto - 1)
            } else {
                None
            },
        }
    }
}

/// [`name_index`] finds `name` exactly when it is there, and then at the
/// place that holds it.
pub proof fn lemma_name_index(units: Seq<UnitX>, name: Seq<char>, upto: int)
    requires
        0 <= upto <= units.len(),
    ensures
        match name_index(units, name, upto) {
            Some(i) => 0 <= i < upto && units[i].id@ == name && forall|k: int|
                0 <= k < i ==> (#[trigger] units[k]).id@ != name,
            None => forall|k: int| 0 <= k < upto ==> (#[trigger] units[k]).id@ != name,
        },
    decreases upto,
{
    if upto > 0 {
        lemma_name_index(units, name, upto - 1);
    }
}

impl UnitSets {
    /// Names are unique.
    pub open spec fn wf(&self) -> bool {
        names_unique(self@)
    }

    pub fn new() -> (r: UnitSets)
        ensures
            r@.len() == 0,
            r.wf(),
    {
        UnitSets { units: Vec::new() }
    }

    pub fn len(&self) -> (r: usize)
        ensures
            r == self@.len(),
    {
        self.units.len()
    }

    /// The place of the unit called `name`.
    pub fn get(&self, name: &String) -> (r: Option<usize>)
        ensures
            match r {
                Some(i) => name_index(self@, name@, self@.len() as int) == Some(i as int),
                None => name_index(self@, name@, self@.len() as int) is None,
            },
    {
        let mut i: usize = 0;
        while i < self.units.len()
            invariant
                i <= self.units.len(),
                name_index(self@, name@, i as int) is None,
            decreases self.units.len() - i,
        {
            if self.units[i].id == *name {
                proof {
                    lemma_name_index_found(self@, name@, i as int, self@.len() as int);
                }
                return Some(i);
            }
            i += 1;
        }
        None
    }

    /// The entry at place `unit`.
    pub fn unit(&self, unit: usize) -> (r: &UnitX)
        requires
            unit < self@.len(),
        ensures
            *r == self@[unit as int],
    {
        &self.units[unit]
    }

    /// Registers `unit` unless its name is taken, and returns the place
    /// where that name is registered. An entry already there is left as
    /// it is.
    pub fn insert(&mut self, unit: UnitX) -> (r: usize)
        requires
            old(self).wf(),
        ensures
            final(self).wf(),
            match name_index(old(self)@, unit.id@, old(self)@.len() as int) {
                Some(i) => r == i && final(self)@ == old(self)@,
                None => r == old(self)@.len() && final(self)@ == old(self)@.push(unit),
            },
    {
        match self.get(&unit.id) {
            Some(i) => i,
            None => {
                proof {
                    lemma_name_index(self@, unit.id@, self@.len() as int);
                }
                let at = self.units.len();
                self.units.push(unit);
                at
            },
        }
    }

    /// Every registered place, in order.
    pub fn get_all(&self) -> (r: Vec<usize>)
        ensures
            r@.len() == self@.len(),
            forall|i: int| 0 <= i < r@.len() ==> r@[i] == i,
    {
        let mut all: Vec<usize> = Vec::new();
        let mut i: usize = 0;
        while i < self.units.len()
            invariant
                i <= self.units.len(),
                all@.len() == i,
                forall|k: int| 0 <= k < all@.len() ==> all@[k] == k,
            decreases self.units.len() - i,
        {
            all.push(i);
            i += 1;
        }
        all
    }

    /// Records what loading the unit at `unit` came to.
    pub fn set_load_state(&mut self, unit: usize, state: UnitLoadState)
        requires
            unit < old(self)@.len(),
        ensures
            final(self)@ == old(self)@.update(
                unit as int,
                (UnitX { load_state: state, ..old(self)@[unit as int] }),
            ),
            old(self).wf() ==> final(self).wf(),
    {
        self.units[unit].load_state = state;
    }

    /// Records the activation state that the unit at `unit` reports.
    pub fn set_active_state(&mut self, unit: usize, state: UnitActiveState)
        requires
            unit < old(self)@.len(),
        ensures
            final(self)@ == old(self)@.update(
                unit as int,
                (UnitX { active_state: state, ..old(self)@[unit as int] }),
            ),
            old(self).wf() ==> final(self).wf(),
    {
        self.units[unit].active_state = state;
    }

    /// Records whether isolating another unit leaves the unit at `unit`
    /// alone.
    pub fn set_ignore_on_isolate(&mut self, unit: usize, ignore: bool)
        requires
            unit < old(self)@.len(),
        ensures
            final(self)@ == old(self)@.update(
                unit as int,
                (UnitX { ignore_on_isolate: ignore, ..old(self)@[unit as int] }),
            ),
            old(self).wf() ==> final(self).wf(),
    {
        self.units[unit].ignore_on_isolate = ignore;
    }

    /// Forgets every unit.
    pub fn clear(&mut self)
        ensures
            final(self)@.len() == 0,
            final(self).wf(),
    {
        self.units.clear();
    }
}

proof fn lemma_name_index_found(units: Seq<UnitX>, name: Seq<char>, i: int, upto: int)
    requires
        0 <= i < upto <= units.len(),
        name_index(units, name, i) is None,
        units[i].id@ == name,
    ensures
        name_index(units, name, upto) == Some(i),
    decreases upto - i,
{
    if upto > i + 1 {
        lemma_name_index_found(units, name, i, upto - 1);
    }
}

/// The suffix by which the name of a unit tells its type.
pub open spec fn type_suffix(unit_type: UnitType) -> Seq<u8> {
    match unit_type {
        UnitType::UnitService => seq![46u8, 115, 101, 114, 118, 105, 99, 101],
        UnitType::UnitTarget => seq![46u8, 116, 97, 114, 103, 101, 116],
        UnitType::UnitSocket => seq![46u8, 115, 111, 99, 107, 101, 116],
        UnitType::UnitMount => seq![46u8, 109, 111, 117, 110, 116],
        UnitType::UnitTimer => seq![46u8, 116, 105, 109, 101, 114],
    }
}

/// Whether `name` ends in `suffix` and has something in front of it.
pub open spec fn has_suffix(name: Seq<u8>, suffix: Seq<u8>) -> bool {
    name.len() > suffix.len() && name.subrange(name.len() - suffix.len(), name.len() as int)
        == suffix
}

/// The type that the name of a unit tells: a name is a stem and the
/// suffix of a type.
pub open spec fn name_type(name: Seq<u8>) -> Option<UnitType> {
    if has_suffix(name, type_suffix(UnitType::UnitService)) {
        Some(UnitType::UnitService)
    } else if has_suffix(name, type_suffix(UnitType::UnitTarget)) {
        Some(UnitType::UnitTarget)
    } else if has_suffix(name, type_suffix(UnitType::UnitSocket)) {
        Some(UnitType::UnitSocket)
    } else if has_suffix(name, type_suffix(UnitType::UnitMount)) {
        Some(UnitType::UnitMount)
    } else if has_suffix(name, type_suffix(UnitType::UnitTimer)) {
        Some(UnitType::UnitTimer)
    } else {
        None
    }
}

fn ends_in(name: &[u8], suffix: &Vec<u8>) -> (r: bool)
    ensures
        r == has_suffix(name@, suffix@),
{
    if name.len() <= suffix.len() {
        return false;
    }
    let start = name.len() - suffix.len();
    let mut i: usize = 0;
    while i < suffix.len()
        invariant
            i <= suffix.len(),
            start + suffix@.len() == name@.len(),
            name@.len() <= usize::MAX,
            suffix@.len() == suffix.len(),
            forall|k: int| 0 <= k < i ==> name@[start + k] == suffix@[k],
        decreases suffix.len() - i,
    {
        if name[start + i] != suffix[i] {
            proof {
                assert(name@.subrange(start as int, name@.len() as int)[i as int] != suffix@[i as int]);
            }
            return false;
        }
        i += 1;
    }
    proof {
        assert(name@.subrange(start as int, name@.len() as int) =~= suffix@);
    }
    true
}

impl UnitType {
    /// The suffix by which the name of a unit tells this type.
    pub fn suffix(self) -> (r: Vec<u8>)
        ensures
            r@ == type_suffix(self),
    {
        let r: Vec<u8> = match self {
            UnitType::UnitService => vec![46u8, 115, 101, 114, 118, 105, 99, 101],
            UnitType::UnitTarget => vec![46u8, 116, 97, 114, 103, 101, 116],
            UnitType::UnitSocket => vec![46u8, 115, 111, 99, 107, 101, 116],
            UnitType::UnitMount => vec![46u8, 109, 111, 117, 110, 116],
            UnitType::UnitTimer => vec![46u8, 116, 105, 109, 101, 114],
        };
        assert(r@ =~= type_suffix(self));
        r
    }

    /// The type that the name of a unit tells.
    pub fn of_name(name: &str) -> (r: Option<UnitType>)
        ensures
            r == name_type(name.spec_bytes()),
    {
        let bytes = name.as_bytes();
        if ends_in(bytes, &UnitType::UnitService.suffix()) {
            Some(UnitType::UnitService)
        } else if ends_in(bytes, &UnitType::UnitTarget.suffix()) {
            Some(UnitType::UnitTarget)
        } else if ends_in(bytes, &UnitType::UnitSocket.suffix()) {
            Some(UnitType::UnitSocket)
        } else if ends_in(bytes, &UnitType::UnitMount.suffix()) {
            Some(UnitType::UnitMount)
        } else if ends_in(bytes, &UnitType::UnitTimer.suffix()) {
            Some(UnitType::UnitTimer)
        } else {
            None
        }
    }
}

} // verus!
