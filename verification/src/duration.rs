//! A non-negative span of time with nanosecond resolution.

use vstd::prelude::*;

verus! {

/// Number of nanoseconds in one second.
pub const NANOS_PER_SEC: u32 = 1_000_000_000;

/// A non-negative span of time, split into whole seconds and a fractional
/// part in nanoseconds. Well-formed values keep the fractional part below
/// one second, so the seconds field alone answers "how many whole seconds".
#[derive(Clone, Copy, Debug, PartialEq, Eq, Structural)]
pub struct Dur {
    pub secs: u64,
    pub nanos: u32,
}

impl View for Dur {
    type V = nat;

    /// A duration is modelled as its total length in nanoseconds.
    open spec fn view(&self) -> nat {
        (self.secs * (NANOS_PER_SEC as nat) + self.nanos) as nat
    }
}

impl Dur {
    /// The fractional part never reaches a whole second.
    pub open spec fn wf(&self) -> bool {
        self.nanos < NANOS_PER_SEC
    }

    pub fn new(secs: u64, nanos: u32) -> (d: Dur)
        requires
            nanos < NANOS_PER_SEC,
        ensures
            d.wf(),
            d.secs == secs,
            d.nanos == nanos,
    {
        Dur { secs, nanos }
    }

    pub fn from_secs(secs: u64) -> (d: Dur)
        ensures
            d.wf(),
            d.secs == secs,
            d.nanos == 0,
            d@ == secs * (NANOS_PER_SEC as nat),
    {
        Dur { secs, nanos: 0 }
    }

    /// The duration truncated to whole seconds.
    pub fn as_secs(&self) -> (r: u64)
        requires
            self.wf(),
        ensures
            r == self.secs,
            r == self@ / (NANOS_PER_SEC as nat),
    {
        proof {
            assert(self.secs * (NANOS_PER_SEC as nat) + self.nanos == self.secs as int * (NANOS_PER_SEC as int) + self.nanos as int);
            assert((self.secs as int * (NANOS_PER_SEC as int) + self.nanos as int) / (NANOS_PER_SEC as int) == self.secs as int) by (nonlinear_arith)
                requires
                    0 <= self.nanos < NANOS_PER_SEC as int,
                    0 <= self.secs,
            ;
        }
        self.secs
    }

    pub fn is_zero(&self) -> (r: bool)
        ensures
            r <==> self@ == 0,
    {
        self.secs == 0 && self.nanos == 0
    }

    /// Subtraction clamped at zero: a step larger than the remaining time
    /// leaves the zero duration rather than wrapping around.
    pub fn saturating_sub(&self, other: &Dur) -> (r: Dur)
        requires
            self.wf(),
            other.wf(),
        ensures
            r.wf(),
            self@ >= other@ ==> r@ == self@ - other@,
            self@ < other@ ==> r@ == 0,
    {
        if self.secs > other.secs {
            if self.nanos >= other.nanos {
                Dur { secs: self.secs - other.secs, nanos: self.nanos - other.nanos }
            } else {
                Dur {
                    secs: self.secs - other.secs - 1,
                    nanos: (self.nanos + NANOS_PER_SEC) - other.nanos,
                }
            }
        } else if self.secs == other.secs && self.nanos >= other.nanos {
            Dur { secs: 0, nanos: self.nanos - other.nanos }
        } else {
            Dur { secs: 0, nanos: 0 }
        }
    }
}

} // verus!
