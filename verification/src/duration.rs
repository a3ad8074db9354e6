//! A duration with millisecond resolution, as decoded from the "normal play
//! time" textual format.

use vstd::prelude::*;

verus! {

/// A span of time: whole seconds plus a sub-second part in milliseconds.
///
/// Values built by this library are normalized: `millis` is below 1000.
#[derive(Clone, Copy, PartialEq, Eq, Structural, Debug)]
pub struct MediaDuration {
    pub secs: u64,
    pub millis: u16,
}

impl View for MediaDuration {
    type V = nat;

    /// The duration's total length in milliseconds.
    open spec fn view(&self) -> nat {
        self.secs as nat * 1000 + self.millis as nat
    }
}

impl MediaDuration {
    /// A duration of `secs` whole seconds.
    pub fn from_secs(secs: u64) -> (r: MediaDuration)
        ensures
            r@ == secs as nat * 1000,
            r.millis < 1000,
    {
        MediaDuration { secs, millis: 0 }
    }

    /// A duration of `millis` milliseconds.
    pub fn from_millis(millis: u64) -> (r: MediaDuration)
        ensures
            r@ == millis as nat,
            r.millis < 1000,
    {
        MediaDuration { secs: millis / 1000, millis: (millis % 1000) as u16 }
    }

    /// The total length in milliseconds.
    pub fn as_millis(&self) -> (r: u128)
        ensures
            r == self@,
    {
        self.secs as u128 * 1000 + self.millis as u128
    }
}

} // verus!
