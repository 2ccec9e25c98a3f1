use vstd::prelude::*;

verus! {

/// Number of `fraction` units in one second (the fraction counts 2^-32 s).
pub open spec fn ticks_per_sec() -> int {
    0x1_0000_0000
}

/// Converts a count of nanoseconds below one second into RTPS fraction units,
/// rounding down.
pub open spec fn nanos_to_fraction(nanos: int) -> int {
    nanos * ticks_per_sec() / 1_000_000_000
}

/// A time span as RTPS puts it on the wire (`Duration_t`): whole seconds and a
/// fraction of a second in units of 2^-32 s.
#[derive(Clone, Copy, Debug, PartialEq, Eq, Structural)]
pub struct Duration {
    pub seconds: i32,
    pub fraction: u32,
}

/// A time span as the host keeps it: whole seconds and nanoseconds below one
/// second.
#[derive(Clone, Copy, Debug, PartialEq, Eq, Structural)]
pub struct CoreDuration {
    secs: u64,
    nanos: u32,
}

/// The RTPS span of `secs` seconds and `nanos` nanoseconds (`nanos` below one
/// second); spans longer than the largest representable one become
/// [`Duration::infinite`].
pub open spec fn duration_of(secs: int, nanos: int) -> Duration {
    if secs > 0x7fff_ffff {
        Duration::spec_infinite()
    } else {
        Duration { seconds: secs as i32, fraction: nanos_to_fraction(nanos) as u32 }
    }
}

proof fn lemma_fraction_bound(nanos: int)
    requires
        0 <= nanos < 1_000_000_000,
    ensures
        0 <= nanos_to_fraction(nanos) < ticks_per_sec(),
        nanos * ticks_per_sec() < 0x1_0000_0000_0000_0000,
{
    assert(0 <= nanos * 0x1_0000_0000 < 1_000_000_000 * 0x1_0000_0000) by (nonlinear_arith)
        requires
            0 <= nanos < 1_000_000_000,
    ;
    assert(nanos * 0x1_0000_0000 / 1_000_000_000 < 0x1_0000_0000) by (nonlinear_arith)
        requires
            0 <= nanos * 0x1_0000_0000 < 1_000_000_000 * 0x1_0000_0000,
    ;
    assert(nanos * 0x1_0000_0000 / 1_000_000_000 >= 0) by (nonlinear_arith)
        requires
            0 <= nanos * 0x1_0000_0000,
    ;
}

/// Builds the RTPS span of `secs` seconds and `nanos` nanoseconds.
fn make_duration(secs: u64, nanos: u64) -> (d: Duration)
    requires
        nanos < 1_000_000_000,
    ensures
        d == duration_of(secs as int, nanos as int),
{
    if secs > 0x7fff_ffff {
        Duration::infinite()
    } else {
        proof {
            lemma_fraction_bound(nanos as int);
        }
        let fraction = (nanos * 0x1_0000_0000u64) / 1_000_000_000u64;
        Duration { seconds: secs as i32, fraction: fraction as u32 }
    }
}

impl Duration {
    /// Total length in fraction units; durations are ordered by it.
    pub open spec fn ticks(self) -> int {
        self.seconds * ticks_per_sec() + self.fraction
    }

    pub open spec fn spec_zero() -> Duration {
        Duration { seconds: 0, fraction: 0 }
    }

    pub open spec fn spec_infinite() -> Duration {
        Duration { seconds: 0x7fff_ffff, fraction: 0xffff_ffff }
    }

    /// The zero-length span.
    pub fn zero() -> (d: Duration)
        ensures
            d.seconds == 0,
            d.fraction == 0,
    {
        Duration { seconds: 0, fraction: 0 }
    }

    /// The span that stands for "never": the largest representable value.
    pub fn infinite() -> (d: Duration)
        ensures
            d == Duration::spec_infinite(),
    {
        Duration { seconds: 0x7fff_ffff, fraction: 0xffff_ffff }
    }

    /// A span of whole seconds.
    pub fn from_secs(secs: i32) -> (d: Duration)
        ensures
            d.seconds == secs,
            d.fraction == 0,
    {
        Duration { seconds: secs, fraction: 0 }
    }

    /// A span of milliseconds; a negative count gives the zero span.
    pub fn from_millis(millis: i64) -> (d: Duration)
        ensures
            millis < 0 ==> d == (Duration { seconds: 0, fraction: 0 }),
            millis >= 0 ==> d == duration_of(millis / 1000, ((millis % 1000) * 1_000_000) as int),
    {
        if millis < 0 {
            Duration::zero()
        } else {
            let m = millis as u64;
            make_duration(m / 1000, (m % 1000) * 1_000_000)
        }
    }

    /// A span of nanoseconds; a negative count gives the zero span.
    pub fn from_nanos(nanos: i64) -> (d: Duration)
        ensures
            nanos < 0 ==> d == (Duration { seconds: 0, fraction: 0 }),
            nanos >= 0 ==> d == duration_of(nanos / 1_000_000_000, (nanos % 1_000_000_000) as int),
    {
        if nanos < 0 {
            Duration::zero()
        } else {
            let n = nanos as u64;
            make_duration(n / 1_000_000_000, n % 1_000_000_000)
        }
    }

    /// The host span this duration stands for, to arm a timer with: whole
    /// seconds, and the fraction turned into nanoseconds (rounded down). The
    /// infinite duration and negative ones have none.
    pub fn to_core(&self) -> (r: Option<CoreDuration>)
        ensures
            r is None <==> (*self == Duration::spec_infinite() || self.seconds < 0),
            r matches Some(c) ==> c.spec_secs() == self.seconds && c.spec_subsec_nanos()
                == self.fraction * 1_000_000_000 / 0x1_0000_0000,
    {
        if self.is_infinite() || self.seconds < 0 {
            return None;
        }
        proof {
            let f = self.fraction as int;
            assert(0 <= f * 1_000_000_000 / 0x1_0000_0000 < 1_000_000_000) by (nonlinear_arith)
                requires
                    0 <= f < 0x1_0000_0000,
            ;
        }
        let nanos = ((self.fraction as u64 * 1_000_000_000u64) / 0x1_0000_0000u64) as u32;
        Some(CoreDuration::from_nanos_parts(self.seconds as u64, nanos))
    }

    /// The RTPS form of a host time span.
    pub fn from_core(d: CoreDuration) -> (r: Duration)
        ensures
            r == duration_of(d.spec_secs(), d.spec_subsec_nanos()),
    {
        proof {
            use_type_invariant(&d);
        }
        make_duration(d.secs, d.nanos as u64)
    }

    /// Whether `self` is no longer than `other`.
    pub fn le(&self, other: &Duration) -> (r: bool)
        ensures
            r == (self.ticks() <= other.ticks()),
    {
        self.seconds < other.seconds || (self.seconds == other.seconds && self.fraction
            <= other.fraction)
    }

    /// Whether `self` is shorter than `other`.
    pub fn lt(&self, other: &Duration) -> (r: bool)
        ensures
            r == (self.ticks() < other.ticks()),
    {
        self.seconds < other.seconds || (self.seconds == other.seconds && self.fraction
            < other.fraction)
    }

    /// Whether `self` stands for "never".
    pub fn is_infinite(&self) -> (r: bool)
        ensures
            r == (*self == Duration::spec_infinite()),
    {
        self.seconds == 0x7fff_ffff && self.fraction == 0xffff_ffff
    }
}

impl CoreDuration {
    #[verifier::type_invariant]
    spec fn nanos_below_one_second(self) -> bool {
        self.nanos < 1_000_000_000
    }

    /// Whole seconds of the span.
    pub closed spec fn spec_secs(self) -> int {
        self.secs as int
    }

    /// Nanoseconds beyond the whole seconds; always below one second.
    pub closed spec fn spec_subsec_nanos(self) -> int {
        self.nanos as int
    }

    /// Total length in nanoseconds; host spans are ordered by it.
    pub open spec fn total_nanos(self) -> int {
        self.spec_secs() * 1_000_000_000 + self.spec_subsec_nanos()
    }

    /// A span of `secs` seconds plus `nanos` nanoseconds; nanoseconds of a
    /// second or more carry into the seconds.
    pub fn new(secs: u64, nanos: u32) -> (d: CoreDuration)
        requires
            secs + nanos / 1_000_000_000 <= u64::MAX,
        ensures
            d.total_nanos() == secs * 1_000_000_000 + nanos,
    {
        let extra = (nanos / 1_000_000_000) as u64;
        let rest = nanos % 1_000_000_000;
        CoreDuration { secs: secs + extra, nanos: rest }
    }

    /// A span of whole seconds.
    pub fn from_secs(secs: u64) -> (d: CoreDuration)
        ensures
            d.spec_secs() == secs,
            d.spec_subsec_nanos() == 0,
    {
        CoreDuration { secs, nanos: 0 }
    }

    /// A span of milliseconds.
    pub fn from_millis(millis: u64) -> (d: CoreDuration)
        ensures
            d.spec_secs() == millis / 1000,
            d.spec_subsec_nanos() == (millis % 1000) * 1_000_000,
    {
        CoreDuration { secs: millis / 1000, nanos: ((millis % 1000) * 1_000_000) as u32 }
    }

    /// A span of whole seconds and nanoseconds below one second.
    pub fn from_nanos_parts(secs: u64, nanos: u32) -> (d: CoreDuration)
        requires
            nanos < 1_000_000_000,
        ensures
            d.spec_secs() == secs,
            d.spec_subsec_nanos() == nanos,
    {
        CoreDuration { secs, nanos }
    }

    /// A span of nanoseconds.
    pub fn from_nanos(nanos: u64) -> (d: CoreDuration)
        ensures
            d.spec_secs() == nanos / 1_000_000_000,
            d.spec_subsec_nanos() == nanos % 1_000_000_000,
    {
        CoreDuration { secs: nanos / 1_000_000_000, nanos: (nanos % 1_000_000_000) as u32 }
    }

    /// Whole seconds of the span.
    pub fn as_secs(&self) -> (s: u64)
        ensures
            s == self.spec_secs(),
    {
        self.secs
    }

    /// Nanoseconds beyond the whole seconds.
    pub fn subsec_nanos(&self) -> (n: u32)
        ensures
            n == self.spec_subsec_nanos(),
            n < 1_000_000_000,
    {
        proof {
            use_type_invariant(self);
        }
        self.nanos
    }

    /// Whether `self` is shorter than `other`.
    pub fn lt(&self, other: &CoreDuration) -> (r: bool)
        ensures
            r == (self.total_nanos() < other.total_nanos()),
    {
        proof {
            use_type_invariant(self);
            use_type_invariant(other);
        }
        self.secs < other.secs || (self.secs == other.secs && self.nanos < other.nanos)
    }
}

} // verus!
