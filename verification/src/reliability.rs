//! The markers that say which operation was begun last, so that after a
//! crash the manager knows where it stood.
use crate::manager::ReliLastFrame;
use crate::unit_sets::UnitType;
use vstd::prelude::*;

verus! {

/// The marker of the operation that was begun last.
#[derive(Clone, Copy, PartialEq, Eq, Debug, Structural)]
pub enum LastFrame {
    /// An operation of the manager itself.
    One(ReliLastFrame),
    /// An operation on the units of one kind.
    Two(ReliLastFrame, UnitType),
}

/// The markers and the switch of the reliability journal.
pub struct Reliability {
    enable: bool,
    last_frame: Option<LastFrame>,
    last_unit: Option<String>,
}

impl Reliability {
    /// Whether the next start-up takes up recorded state.
    pub closed spec fn spec_enable(&self) -> bool {
        self.enable
    }

    pub closed spec fn spec_last_frame(&self) -> Option<LastFrame> {
        self.last_frame
    }

    pub closed spec fn spec_last_unit(&self) -> Option<String> {
        self.last_unit
    }

    /// A journal without markers, which does not ask for recovery.
    pub fn new() -> (r: Reliability)
        ensures
            !r.spec_enable(),
            r.spec_last_frame() is None,
            r.spec_last_unit() is None,
    {
        Reliability { enable: false, last_frame: None, last_unit: None }
    }

    pub fn enable(&self) -> (r: bool)
        ensures
            r == self.spec_enable(),
    {
        self.enable
    }

    pub fn set_enable(&mut self, enable: bool)
        ensures
            final(self).spec_enable() == enable,
            final(self).spec_last_frame() == old(self).spec_last_frame(),
            final(self).spec_last_unit() == old(self).spec_last_unit(),
    {
        self.enable = enable;
    }

    /// Marks that an operation of the manager begins.
    pub fn set_last_frame1(&mut self, frame: ReliLastFrame)
        ensures
            final(self).spec_last_frame() == Some(LastFrame::One(frame)),
            final(self).spec_enable() == old(self).spec_enable(),
            final(self).spec_last_unit() == old(self).spec_last_unit(),
    {
        self.last_frame = Some(LastFrame::One(frame));
    }

    /// Marks that an operation on the units of one kind begins.
    pub fn set_last_frame2(&mut self, frame: ReliLastFrame, unit_type: UnitType)
        ensures
            final(self).spec_last_frame() == Some(LastFrame::Two(frame, unit_type)),
            final(self).spec_enable() == old(self).spec_enable(),
            final(self).spec_last_unit() == old(self).spec_last_unit(),
    {
        self.last_frame = Some(LastFrame::Two(frame, unit_type));
    }

    /// Marks that the operation has ended.
    pub fn clear_last_frame(&mut self)
        ensures
            final(self).spec_last_frame() is None,
            final(self).spec_enable() == old(self).spec_enable(),
            final(self).spec_last_unit() == old(self).spec_last_unit(),
    {
        self.last_frame = None;
    }

    /// Marks the unit that the operation works on.
    pub fn set_last_unit(&mut self, unit: String)
        ensures
            final(self).spec_last_unit() == Some(unit),
            final(self).spec_enable() == old(self).spec_enable(),
            final(self).spec_last_frame() == old(self).spec_last_frame(),
    {
        self.last_unit = Some(unit);
    }

    pub fn clear_last_unit(&mut self)
        ensures
            final(self).spec_last_unit() is None,
            final(self).spec_enable() == old(self).spec_enable(),
            final(self).spec_last_frame() == old(self).spec_last_frame(),
    {
        self.last_unit = None;
    }

    pub fn last_frame(&self) -> (r: Option<LastFrame>)
        ensures
            r == self.spec_last_frame(),
    {
        self.last_frame
    }

    pub fn last_unit(&self) -> (r: Option<&String>)
        ensures
            match r {
                Some(u) => self.spec_last_unit() == Some(*u),
                None => self.spec_last_unit() is None,
            },
    {
        self.last_unit.as_ref()
    }

    /// Forgets the markers and no longer asks for recovery.
    pub fn data_clear(&mut self)
        ensures
            !final(self).spec_enable(),
            final(self).spec_last_frame() is None,
            final(self).spec_last_unit() is None,
    {
        self.enable = false;
        self.last_frame = None;
        self.last_unit = None;
    }
}

} // verus!
