//! The last-known position of the device, and which changes of it are news.
use vstd::prelude::*;

verus! {

/// A position, as the bit patterns of its numbers: degrees of latitude and
/// longitude, and the accuracy in metres. No zero is written as a negative one.
#[derive(Clone, Copy, PartialEq, Eq, Structural, Debug)]
pub struct GpsFix {
    pub lat: u64,
    pub lon: u64,
    pub acc: u32,
}

impl GpsFix {
    /// Whether two fixes are at the same place.
    pub open spec fn same_place(self, other: GpsFix) -> bool {
        self.lat == other.lat && self.lon == other.lon
    }
}

/// The position, and the one that data was last resolved for.
#[derive(Clone, Copy, PartialEq, Eq, Structural, Debug)]
pub struct GpsState {
    pub last: Option<GpsFix>,
    pub epoch_fix: Option<GpsFix>,
    /// An injected track owns the position.
    pub fake_active: bool,
}

/// What a fix leads to.
#[derive(Clone, Copy, PartialEq, Eq, Structural, Debug)]
pub struct FixNews {
    /// Data that depends on the position is resolved anew.
    pub bump_epoch: bool,
    /// Cameras that follow the position wake up.
    pub wake: bool,
}

impl GpsState {
    pub fn new() -> (r: GpsState)
        ensures
            r == (GpsState { last: None, epoch_fix: None, fake_active: false }),
    {
        GpsState { last: None, epoch_fix: None, fake_active: false }
    }

    /// A fix counts as a move: it is the first one, or far enough from the one
    /// that data was last resolved for.
    pub open spec fn is_move(self, far: bool) -> bool {
        self.epoch_fix is None || far
    }

    /// A fix is at another place than the last one.
    pub open spec fn is_change(self, fix: GpsFix) -> bool {
        self.last matches Some(p) ==> !p.same_place(fix)
    }

    /// The state after a fix that is a position on earth.
    pub open spec fn after_fix(self, fix: GpsFix, far: bool) -> GpsState {
        GpsState {
            last: Some(fix),
            epoch_fix: if self.is_move(far) {
                Some(fix)
            } else {
                self.epoch_fix
            },
            ..self
        }
    }

    /// Stores a fresh fix. `valid` says that it is a position on earth, `far`
    /// that it is forty metres or more from the fix that data was last resolved
    /// for. A new position is new data, but only one that is far enough; a
    /// changed position wakes the cameras in any case.
    pub fn set_gps_fix(&mut self, fix: GpsFix, valid: bool, far: bool) -> (r: FixNews)
        ensures
            if valid {
                &&& *final(self) == old(self).after_fix(fix, far)
                &&& r == (FixNews {
                    bump_epoch: old(self).is_move(far),
                    wake: old(self).is_change(fix),
                })
            } else {
                &&& *final(self) == *old(self)
                &&& r == (FixNews { bump_epoch: false, wake: false })
            },
    {
        if !valid {
            return FixNews { bump_epoch: false, wake: false };
        }
        let wake = match self.last {
            Some(p) => p.lat != fix.lat || p.lon != fix.lon,
            None => true,
        };
        let moved = self.epoch_fix.is_none() || far;
        self.last = Some(fix);
        if moved {
            self.epoch_fix = Some(fix);
        }
        FixNews { bump_epoch: moved, wake }
    }

    /// The location listener's entry: a real fix, honoured only while no
    /// injected track has claimed the position.
    pub fn set_gps_fix_from_listener(&mut self, fix: GpsFix, valid: bool, far: bool) -> (r: FixNews)
        ensures
            if valid && !old(self).fake_active {
                &&& *final(self) == old(self).after_fix(fix, far)
                &&& r == (FixNews {
                    bump_epoch: old(self).is_move(far),
                    wake: old(self).is_change(fix),
                })
            } else {
                &&& *final(self) == *old(self)
                &&& r == (FixNews { bump_epoch: false, wake: false })
            },
    {
        if self.fake_active {
            return FixNews { bump_epoch: false, wake: false };
        }
        self.set_gps_fix(fix, valid, far)
    }

    /// The most recent fix, if the device has produced one yet.
    pub fn last_gps_fix(&self) -> (r: Option<GpsFix>)
        ensures
            r == self.last,
    {
        self.last
    }
}

/// An injected track claims the position: from now on the real listener is
/// ignored.
pub fn claim_fake_gps(state: &mut GpsState)
    ensures
        *final(state) == (GpsState { fake_active: true, ..*old(state) }),
{
    state.fake_active = true;
}

/// Drift is measured from the fix that data was last resolved for: while fixes
/// are near it, that fix stays, so small steps add up.
pub proof fn drift_accumulates(s: GpsState, a: GpsFix, b: GpsFix)
    requires
        s.epoch_fix is Some,
    ensures
        s.after_fix(a, false).after_fix(b, false).epoch_fix == s.epoch_fix,
        s.after_fix(a, false).after_fix(b, true).epoch_fix == Some(b),
{
}

/// The first fix always counts.
pub proof fn the_first_fix_is_news(s: GpsState, fix: GpsFix, far: bool)
    requires
        s.epoch_fix is None,
    ensures
        s.is_move(far),
        s.after_fix(fix, far).epoch_fix == Some(fix),
{
}

/// A fix of another place wakes those who wait, and one of the same place does not; the
/// last fix is always the one that came last.
pub proof fn another_place_is_news(s: GpsState, fix: GpsFix, next: GpsFix, far: bool)
    ensures
        s.after_fix(fix, far).last == Some(fix),
        s.after_fix(fix, far).is_change(next) <==> fix.lat != next.lat || fix.lon != next.lon,
        s.last is None ==> s.is_change(fix),
        s.after_fix(fix, far).epoch_fix is Some,
        s.epoch_fix is Some && !far ==> !s.is_move(far),
        far ==> s.is_move(far),
        s.after_fix(fix, far).fake_active == s.fake_active,
{
}

} // verus!
