//! Wall-clock instants as whole nanoseconds since the Unix epoch.
use vstd::prelude::*;

verus! {

/// Nanoseconds in one second.
pub const NANOS_PER_SECOND: i128 = 1_000_000_000;

/// A point on the wall clock: nanoseconds since the Unix epoch, negative
/// before it.
#[derive(Clone, Copy, Debug, PartialEq, Eq, Structural)]
pub struct WallTime {
    pub unix_nanos: i128,
}

/// The instant `secs` whole seconds after `t`, where it can be represented.
pub open spec fn seconds_after(t: WallTime, secs: nat) -> Option<WallTime> {
    let n = t.unix_nanos + secs * NANOS_PER_SECOND;
    if n <= i128::MAX {
        Some(WallTime { unix_nanos: n as i128 })
    } else {
        None
    }
}

/// The nanoseconds from `now` until `release`, where `release` lies strictly
/// after `now`; nothing otherwise.
pub open spec fn wait_spec(now: WallTime, release: WallTime) -> Option<int> {
    if release.unix_nanos > now.unix_nanos {
        Some(release.unix_nanos - now.unix_nanos)
    } else {
        None
    }
}

/// `t` with its fraction of a second dropped (rounded towards the past).
pub open spec fn floor_to_second_spec(t: WallTime) -> WallTime {
    WallTime {
        unix_nanos: (t.unix_nanos - t.unix_nanos % NANOS_PER_SECOND) as i128,
    }
}

impl WallTime {
    /// The instant `unix_nanos` nanoseconds after the Unix epoch.
    pub fn from_unix_nanos(unix_nanos: i128) -> (r: WallTime)
        ensures
            r.unix_nanos == unix_nanos,
    {
        WallTime { unix_nanos }
    }

    /// The instant `secs` seconds later, or `None` where it does not fit.
    pub fn plus_seconds(self, secs: u64) -> (r: Option<WallTime>)
        ensures
            r == seconds_after(self, secs as nat),
    {
        assert(0 <= secs * NANOS_PER_SECOND <= 18_446_744_073_709_551_615_000_000_000)
            by (nonlinear_arith);
        let delta: i128 = (secs as i128) * NANOS_PER_SECOND;
        match self.unix_nanos.checked_add(delta) {
            Some(n) => Some(WallTime { unix_nanos: n }),
            None => None,
        }
    }

    /// How long to wait from `self` until `release`: `None` where `release`
    /// is not later than `self`, else the gap in nanoseconds.
    pub fn wait_until(self, release: WallTime) -> (r: Option<u128>)
        ensures
            match r {
                Some(d) => wait_spec(self, release) == Some(d as int),
                None => wait_spec(self, release) is None,
            },
    {
        let now = self.unix_nanos;
        let at = release.unix_nanos;
        if at <= now {
            None
        } else if now < 0 && at >= 0 {
            let before_epoch: u128 = (-(now + 1)) as u128;
            Some((at as u128) + before_epoch + 1)
        } else {
            Some((at - now) as u128)
        }
    }

    /// The same instant with its fraction of a second dropped.
    pub fn floor_to_second(self) -> (r: WallTime)
        requires
            self.unix_nanos - self.unix_nanos % NANOS_PER_SECOND >= i128::MIN,
        ensures
            r == floor_to_second_spec(self),
    {
        let rem = self.unix_nanos % NANOS_PER_SECOND;
        let frac = if rem < 0 {
            rem + NANOS_PER_SECOND
        } else {
            rem
        };
        assert(frac == self.unix_nanos % NANOS_PER_SECOND);
        WallTime { unix_nanos: self.unix_nanos - frac }
    }
}

} // verus!
