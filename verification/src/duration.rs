//! A span of time with nanosecond precision, as whole seconds plus the
//! nanoseconds below one second.

use vstd::prelude::*;

verus! {

/// Nanoseconds in one second.
pub const NANOS_PER_SEC: u32 = 1_000_000_000;

/// A span of time: `secs` whole seconds and `nanos` further nanoseconds.
/// Its view is the total number of nanoseconds.
#[derive(Clone, Copy, Debug, PartialEq, Eq)]
pub struct Duration {
    secs: u64,
    nanos: u32,
}

impl View for Duration {
    type V = nat;

    closed spec fn view(&self) -> nat {
        (self.secs * NANOS_PER_SEC + self.nanos) as nat
    }
}

/// The whole seconds of a span of `n` nanoseconds.
pub open spec fn whole_secs(n: nat) -> nat {
    n / (NANOS_PER_SEC as nat)
}

proof fn lemma_split(secs: u64, nanos: u32)
    requires
        nanos < NANOS_PER_SEC,
    ensures
        ((secs * NANOS_PER_SEC + nanos) as nat) / (NANOS_PER_SEC as nat) == secs,
        ((secs * NANOS_PER_SEC + nanos) as nat) % (NANOS_PER_SEC as nat) == nanos,
{
    let n = NANOS_PER_SEC as int;
    vstd::arithmetic::div_mod::lemma_fundamental_div_mod_converse(
        secs * n + nanos,
        n,
        secs as int,
        nanos as int,
    );
}

impl Duration {
    #[verifier::type_invariant]
    spec fn nanos_below_one_second(self) -> bool {
        self.nanos < NANOS_PER_SEC
    }

    /// A span of `secs` seconds and `nanos` nanoseconds.
    pub fn new(secs: u64, nanos: u32) -> (d: Duration)
        requires
            nanos < NANOS_PER_SEC,
        ensures
            d@ == secs * NANOS_PER_SEC + nanos,
    {
        Duration { secs, nanos }
    }

    /// A span of `secs` whole seconds.
    pub fn from_secs(secs: u64) -> (d: Duration)
        ensures
            d@ == secs * NANOS_PER_SEC,
    {
        Duration { secs, nanos: 0 }
    }

    /// The empty span.
    pub fn zero() -> (d: Duration)
        ensures
            d@ == 0,
    {
        Duration { secs: 0, nanos: 0 }
    }

    /// The whole seconds of the span.
    pub fn as_secs(&self) -> (s: u64)
        ensures
            s == whole_secs(self@),
    {
        proof {
            use_type_invariant(self);
            lemma_split(self.secs, self.nanos);
        }
        self.secs
    }

    /// The nanoseconds below one second.
    pub fn subsec_nanos(&self) -> (n: u32)
        ensures
            n == self@ % (NANOS_PER_SEC as nat),
            n < NANOS_PER_SEC,
    {
        proof {
            use_type_invariant(self);
            lemma_split(self.secs, self.nanos);
        }
        self.nanos
    }

    /// Whether `self` is shorter than `other`.
    pub fn is_shorter_than(&self, other: &Duration) -> (b: bool)
        ensures
            b == (self@ < other@),
    {
        proof {
            use_type_invariant(self);
            use_type_invariant(other);
            lemma_split(self.secs, self.nanos);
            lemma_split(other.secs, other.nanos);
            lemma_order(self.secs, self.nanos, other.secs, other.nanos);
        }
        self.secs < other.secs || (self.secs == other.secs && self.nanos < other.nanos)
    }

    /// `self - other`, or the empty span when `other` is longer.
    pub fn saturating_sub(&self, other: &Duration) -> (d: Duration)
        ensures
            d@ == if self@ >= other@ { self@ - other@ } else { 0 },
    {
        proof {
            use_type_invariant(self);
            use_type_invariant(other);
        }
        if self.is_shorter_than(other) {
            Duration::zero()
        } else if self.nanos >= other.nanos {
            let d = Duration { secs: self.secs - other.secs, nanos: self.nanos - other.nanos };
            assert(d@ == self@ - other@) by (nonlinear_arith)
                requires
                    d.secs == self.secs - other.secs,
                    d.nanos == self.nanos - other.nanos,
                    d@ == d.secs * NANOS_PER_SEC + d.nanos,
                    self@ == self.secs * NANOS_PER_SEC + self.nanos,
                    other@ == other.secs * NANOS_PER_SEC + other.nanos,
            ;
            d
        } else {
            proof {
                lemma_order(self.secs, self.nanos, other.secs, other.nanos);
            }
            let d = Duration {
                secs: self.secs - other.secs - 1,
                nanos: NANOS_PER_SEC - other.nanos + self.nanos,
            };
            assert(d@ == self@ - other@) by (nonlinear_arith)
                requires
                    d.secs == self.secs - other.secs - 1,
                    d.nanos == NANOS_PER_SEC - other.nanos + self.nanos,
                    d@ == d.secs * NANOS_PER_SEC + d.nanos,
                    self@ == self.secs * NANOS_PER_SEC + self.nanos,
                    other@ == other.secs * NANOS_PER_SEC + other.nanos,
            ;
            d
        }
    }

    /// The shorter of `self` and `other`.
    pub fn min(self, other: Duration) -> (d: Duration)
        ensures
            d@ == if other@ < self@ { other@ } else { self@ },
    {
        if other.is_shorter_than(&self) {
            other
        } else {
            self
        }
    }

    /// `self` restricted to the interval from `lo` to `hi`.
    pub fn clamp(self, lo: Duration, hi: Duration) -> (d: Duration)
        requires
            lo@ <= hi@,
        ensures
            d@ == if self@ < lo@ { lo@ } else if hi@ < self@ { hi@ } else { self@ },
    {
        if self.is_shorter_than(&lo) {
            lo
        } else if hi.is_shorter_than(&self) {
            hi
        } else {
            self
        }
    }
}

/// A span of whole seconds has exactly those whole seconds.
pub proof fn lemma_whole_secs_of(secs: u64)
    ensures
        whole_secs((secs * NANOS_PER_SEC) as nat) == secs,
{
    lemma_split(secs, 0);
}

proof fn lemma_order(s1: u64, n1: u32, s2: u64, n2: u32)
    requires
        n1 < NANOS_PER_SEC,
        n2 < NANOS_PER_SEC,
    ensures
        (s1 * NANOS_PER_SEC + n1 < s2 * NANOS_PER_SEC + n2) == (s1 < s2 || (s1 == s2 && n1 < n2)),
{
    let n = NANOS_PER_SEC as int;
    if s1 < s2 {
        assert(s1 * n + n <= s2 * n) by (nonlinear_arith)
            requires
                s1 < s2,
                n > 0,
        ;
    } else if s1 > s2 {
        assert(s2 * n + n <= s1 * n) by (nonlinear_arith)
            requires
                s2 < s1,
                n > 0,
        ;
    }
}

} // verus!
