//! Time spans and points in time, as whole seconds plus nanoseconds. Both
//! are viewed as a number of nanoseconds, so that every comparison and every
//! sum is stated over integers.

use vstd::prelude::*;

verus! {

/// Nanoseconds in one second.
pub const NANOS_PER_SEC: u32 = 1_000_000_000;

/// A span of time: whole seconds and the nanoseconds below one second.
#[derive(Clone, Copy, Debug, PartialEq, Eq, Structural)]
pub struct Duration {
    secs: u64,
    nanos: u32,
}

impl Duration {
    #[verifier::type_invariant]
    spec fn well_formed(self) -> bool {
        self.nanos < NANOS_PER_SEC
    }
}

impl View for Duration {
    type V = nat;

    /// The length of the span in nanoseconds.
    closed spec fn view(&self) -> nat {
        (self.secs * 1_000_000_000 + self.nanos) as nat
    }
}

/// A point in time: seconds and nanoseconds since the UNIX epoch.
#[derive(Clone, Copy, Debug, PartialEq, Eq, Structural)]
pub struct Timestamp {
    secs: u64,
    nanos: u32,
}

impl Timestamp {
    #[verifier::type_invariant]
    spec fn well_formed(self) -> bool {
        self.nanos < NANOS_PER_SEC
    }
}

impl View for Timestamp {
    type V = nat;

    /// Nanoseconds since the UNIX epoch.
    closed spec fn view(&self) -> nat {
        (self.secs * 1_000_000_000 + self.nanos) as nat
    }
}

/// The latest point in time that a `Timestamp` can hold, in nanoseconds.
pub open spec fn max_timestamp_nanos() -> nat {
    (u64::MAX as nat) * 1_000_000_000 + 999_999_999
}

/// The point `d` nanoseconds after `t`, or the latest representable point
/// where that lies beyond it.
pub open spec fn later_by(t: nat, d: nat) -> nat {
    if t + d <= max_timestamp_nanos() {
        t + d
    } else {
        max_timestamp_nanos()
    }
}

impl Duration {
    /// A span of `secs` whole seconds.
    pub fn from_secs(secs: u64) -> (r: Duration)
        ensures
            r@ == secs * 1_000_000_000,
    {
        Duration { secs, nanos: 0 }
    }

    /// A span of `millis` milliseconds.
    pub fn from_millis(millis: u64) -> (r: Duration)
        ensures
            r@ == millis * 1_000_000,
    {
        let secs = millis / 1000;
        let rest = millis % 1000;
        let nanos = (rest as u32) * 1_000_000;
        assert(millis == secs * 1000 + rest);
        Duration { secs, nanos }
    }

    /// A span of `secs` seconds and `nanos` nanoseconds below one second.
    pub fn from_parts(secs: u64, nanos: u32) -> (r: Duration)
        requires
            nanos < 1_000_000_000,
        ensures
            r@ == secs * 1_000_000_000 + nanos,
    {
        Duration { secs, nanos }
    }

    /// The span of both together, as `+` on spans gives it; it overflows
    /// where the seconds pass `u64::MAX`.
    pub fn plus(&self, other: Duration) -> (r: Duration)
        requires
            self@ + other@ <= (u64::MAX as nat) * 1_000_000_000 + 999_999_999,
        ensures
            r@ == self@ + other@,
    {
        proof {
            use_type_invariant(self);
            use_type_invariant(&other);
        }
        let total = self.nanos + other.nanos;
        if total >= NANOS_PER_SEC {
            assert(self.secs + other.secs + 1 <= u64::MAX) by (nonlinear_arith)
                requires
                    self.secs * 1_000_000_000 + self.nanos + other.secs * 1_000_000_000 + other.nanos
                        <= (u64::MAX as nat) * 1_000_000_000 + 999_999_999,
                    self.nanos + other.nanos >= 1_000_000_000,
            ;
            Duration { secs: self.secs + other.secs + 1, nanos: total - NANOS_PER_SEC }
        } else {
            assert(self.secs + other.secs <= u64::MAX) by (nonlinear_arith)
                requires
                    self.secs * 1_000_000_000 + self.nanos + other.secs * 1_000_000_000 + other.nanos
                        <= (u64::MAX as nat) * 1_000_000_000 + 999_999_999,
                    self.nanos < 1_000_000_000,
                    other.nanos < 1_000_000_000,
            ;
            Duration { secs: self.secs + other.secs, nanos: total }
        }
    }

    /// Half the span, rounded down to the nanosecond, as dividing a span by
    /// two gives it.
    pub fn half(&self) -> (r: Duration)
        ensures
            r@ == self@ / 2,
    {
        proof {
            use_type_invariant(self);
        }
        let carry: u32 = if self.secs % 2 == 1 {
            500_000_000
        } else {
            0
        };
        let nanos = self.nanos / 2 + carry;
        let secs = self.secs / 2;
        assert((self.secs * 1_000_000_000 + self.nanos) / 2 == secs * 1_000_000_000 + nanos) by (nonlinear_arith)
            requires
                secs == self.secs / 2,
                carry == if self.secs % 2 == 1 { 500_000_000u32 } else { 0u32 },
                nanos == self.nanos / 2 + carry,
                self.nanos < 1_000_000_000,
        ;
        Duration { secs, nanos }
    }

    /// The empty span.
    pub fn zero() -> (r: Duration)
        ensures
            r@ == 0,
    {
        Duration { secs: 0, nanos: 0 }
    }

    /// The number of whole seconds in the span.
    pub fn as_secs(&self) -> (r: u64)
        ensures
            r == self@ / 1_000_000_000,
    {
        proof {
            use_type_invariant(self);
        }
        self.secs
    }

    /// The nanoseconds beyond the whole seconds.
    pub fn subsec_nanos(&self) -> (r: u32)
        ensures
            r == self@ % 1_000_000_000,
    {
        proof {
            use_type_invariant(self);
        }
        self.nanos
    }

    /// Whether this span is shorter than `other`.
    pub fn is_shorter_than(&self, other: &Duration) -> (r: bool)
        ensures
            r == (self@ < other@),
    {
        proof {
            use_type_invariant(self);
            use_type_invariant(other);
        }
        self.secs < other.secs || (self.secs == other.secs && self.nanos < other.nanos)
    }
}

/// Reads the system clock; what comes back depends on the moment of the call,
/// and a clock set before the UNIX epoch reads as the epoch itself.
#[verifier::external_body]
pub(crate) fn system_now() -> (r: Timestamp) {
    let since = std::time::SystemTime::now().duration_since(std::time::UNIX_EPOCH).unwrap_or(
        std::time::Duration::ZERO,
    );
    Timestamp { secs: since.as_secs(), nanos: since.subsec_nanos() }
}

impl Timestamp {
    /// The current time, read from the system clock.
    pub fn now() -> (r: Timestamp) {
        system_now()
    }

    /// Nanoseconds since the UNIX epoch.
    pub fn as_nanos(&self) -> (r: u128)
        ensures
            r == self@,
    {
        proof {
            use_type_invariant(self);
        }
        let s = self.secs as u128;
        assert(s * 1_000_000_000 <= 18_446_744_073_709_551_615_000_000_000) by (nonlinear_arith)
            requires
                s <= 18_446_744_073_709_551_615,
        ;
        s * 1_000_000_000 + self.nanos as u128
    }

    /// The UNIX epoch.
    pub fn epoch() -> (r: Timestamp)
        ensures
            r@ == 0,
    {
        Timestamp { secs: 0, nanos: 0 }
    }

    /// The point `secs` seconds after the UNIX epoch.
    pub fn from_unix_secs(secs: u64) -> (r: Timestamp)
        ensures
            r@ == secs * 1_000_000_000,
    {
        Timestamp { secs, nanos: 0 }
    }

    /// Whether this point lies strictly before `other`.
    pub fn is_before(&self, other: &Timestamp) -> (r: bool)
        ensures
            r == (self@ < other@),
            self@ <= max_timestamp_nanos(),
            other@ <= max_timestamp_nanos(),
    {
        proof {
            use_type_invariant(self);
            use_type_invariant(other);
        }
        self.secs < other.secs || (self.secs == other.secs && self.nanos < other.nanos)
    }

    /// Whether this point lies strictly after `other`.
    pub fn is_after(&self, other: &Timestamp) -> (r: bool)
        ensures
            r == (self@ > other@),
            self@ <= max_timestamp_nanos(),
            other@ <= max_timestamp_nanos(),
    {
        other.is_before(self)
    }

    /// The point `d` later, or the latest representable point where that
    /// lies beyond it.
    pub fn plus(&self, d: Duration) -> (r: Timestamp)
        ensures
            r@ == later_by(self@, d@),
    {
        proof {
            use_type_invariant(self);
            use_type_invariant(d);
        }
        let mut nanos = self.nanos + d.nanos;
        let mut carry: u64 = 0;
        if nanos >= NANOS_PER_SEC {
            nanos = nanos - NANOS_PER_SEC;
            carry = 1;
        }
        if self.secs > u64::MAX - d.secs || self.secs + d.secs > u64::MAX - carry {
            Timestamp { secs: u64::MAX, nanos: NANOS_PER_SEC - 1 }
        } else {
            Timestamp { secs: self.secs + d.secs + carry, nanos }
        }
    }

    /// The point `d` earlier, or the UNIX epoch where that lies before it.
    pub fn minus(&self, d: Duration) -> (r: Timestamp)
        ensures
            r@ == if self@ >= d@ {
                self@ - d@
            } else {
                0
            },
    {
        proof {
            use_type_invariant(self);
            use_type_invariant(d);
        }
        if self.secs < d.secs || (self.secs == d.secs && self.nanos < d.nanos) {
            return Timestamp { secs: 0, nanos: 0 };
        }
        if self.nanos >= d.nanos {
            Timestamp { secs: self.secs - d.secs, nanos: self.nanos - d.nanos }
        } else {
            Timestamp { secs: self.secs - d.secs - 1, nanos: self.nanos + NANOS_PER_SEC - d.nanos }
        }
    }

    /// The span from `earlier` to this point, or the empty span where
    /// `earlier` lies after it.
    pub fn saturating_duration_since(&self, earlier: &Timestamp) -> (r: Duration)
        ensures
            r@ == if self@ >= earlier@ {
                self@ - earlier@
            } else {
                0
            },
    {
        proof {
            use_type_invariant(self);
            use_type_invariant(earlier);
        }
        if self.secs < earlier.secs || (self.secs == earlier.secs && self.nanos < earlier.nanos) {
            return Duration { secs: 0, nanos: 0 };
        }
        if self.nanos >= earlier.nanos {
            Duration { secs: self.secs - earlier.secs, nanos: self.nanos - earlier.nanos }
        } else {
            Duration {
                secs: self.secs - earlier.secs - 1,
                nanos: self.nanos + NANOS_PER_SEC - earlier.nanos,
            }
        }
    }
}

} // verus!
