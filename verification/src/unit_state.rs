//! Activation states shared by every kind of unit, and the record of a
//! change between two of them.
use vstd::prelude::*;

verus! {

/// Coarse life-cycle state that every unit kind maps its own state onto.
#[derive(Eq, PartialEq, Clone, Copy, Debug, Structural)]
pub enum UnitActiveState {
    UnitActive,
    UnitReloading,
    UnitInActive,
    UnitFailed,
    UnitActivating,
    UnitDeActivating,
    UnitMaintenance,
}

/// Flags that go with a state change, as a set of bits.
#[derive(Eq, PartialEq, Clone, Copy, Debug, Structural)]
pub struct UnitNotifyFlags {
    bits: u8,
}

/// Bit of the flag "a reload failed".
pub const UNIT_NOTIFY_RELOAD_FAILURE: u8 = 1;

/// Bit of the flag "the unit will be restarted by itself".
pub const UNIT_NOTIFY_WILL_AUTO_RESTART: u8 = 2;

/// All bits that stand for a flag.
pub const UNIT_NOTIFY_ALL: u8 = 3;

impl UnitNotifyFlags {
    /// The bits that are set.
    pub closed spec fn view(&self) -> u8 {
        self.bits
    }

    /// No flag.
    pub fn empty() -> (r: UnitNotifyFlags)
        ensures
            r@ == 0,
    {
        UnitNotifyFlags { bits: 0 }
    }

    /// Every flag.
    pub fn all() -> (r: UnitNotifyFlags)
        ensures
            r@ == UNIT_NOTIFY_ALL,
    {
        UnitNotifyFlags { bits: UNIT_NOTIFY_ALL }
    }

    /// The flags that `bits` stands for, unless a bit is set that stands
    /// for none.
    pub fn from_bits(bits: u8) -> (r: Option<UnitNotifyFlags>)
        ensures
            match r {
                Some(flags) => flags@ == bits && bits & !UNIT_NOTIFY_ALL == 0,
                None => bits & !UNIT_NOTIFY_ALL != 0,
            },
    {
        if bits & !UNIT_NOTIFY_ALL == 0 {
            Some(UnitNotifyFlags { bits })
        } else {
            None
        }
    }

    /// The flags that `bits` stands for; bits that stand for no flag are
    /// dropped.
    pub fn from_bits_truncate(bits: u8) -> (r: UnitNotifyFlags)
        ensures
            r@ == bits & UNIT_NOTIFY_ALL,
    {
        UnitNotifyFlags { bits: bits & UNIT_NOTIFY_ALL }
    }

    pub fn bits(&self) -> (r: u8)
        ensures
            r == self@,
    {
        self.bits
    }

    pub fn is_empty(&self) -> (r: bool)
        ensures
            r == (self@ == 0),
    {
        self.bits == 0
    }

    /// Whether every flag of `other` is among these.
    pub fn contains(&self, other: UnitNotifyFlags) -> (r: bool)
        ensures
            r == (self@ & other@ == other@),
    {
        self.bits & other.bits == other.bits
    }

    /// These flags and those of `other`.
    pub fn union(self, other: UnitNotifyFlags) -> (r: UnitNotifyFlags)
        ensures
            r@ == self@ | other@,
    {
        UnitNotifyFlags { bits: self.bits | other.bits }
    }

    /// Adds the flags of `other`.
    pub fn insert(&mut self, other: UnitNotifyFlags)
        ensures
            final(self)@ == old(self)@ | other@,
    {
        self.bits = self.bits | other.bits;
    }

    /// Takes away the flags of `other`.
    pub fn remove(&mut self, other: UnitNotifyFlags)
        ensures
            final(self)@ == old(self)@ & !other@,
    {
        self.bits = self.bits & !other.bits;
    }
}

/// A state change of a unit: from `os` to `ns`.
#[derive(Eq, PartialEq, Clone, Copy, Debug, Structural)]
pub struct UnitState {
    pub os: UnitActiveState,
    pub ns: UnitActiveState,
    pub flags: UnitNotifyFlags,
}

impl UnitState {
    pub fn new(os: UnitActiveState, ns: UnitActiveState, flags: UnitNotifyFlags) -> (r: UnitState)
        ensures
            r == (UnitState { os, ns, flags }),
    {
        UnitState { os, ns, flags }
    }
}

} // verus!
