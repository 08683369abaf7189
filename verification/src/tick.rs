//! The tick counter and timestamps derived from it.

use std::cmp::Ordering;
use std::time::Duration;
use vstd::prelude::*;

verus! {

/// Discrete, monotonic step counter of the runtime loop.
///
/// Ticks are ordered and compared by their raw counter value.
#[derive(Debug, Clone, Copy, PartialEq, Eq, Structural, Hash, Ord)]
pub struct Tick(u64);

impl PartialOrd for Tick {
    /// Compares two ticks by their counters.
    fn partial_cmp(&self, other: &Tick) -> (order: Option<Ordering>) {
        if self.0 < other.0 {
            Some(Ordering::Less)
        } else if self.0 == other.0 {
            Some(Ordering::Equal)
        } else {
            Some(Ordering::Greater)
        }
    }
}

impl vstd::std_specs::cmp::PartialOrdSpecImpl for Tick {
    open spec fn obeys_partial_cmp_spec() -> bool {
        true
    }

    /// Ticks are ordered as their counters are.
    open spec fn partial_cmp_spec(&self, other: &Tick) -> Option<Ordering> {
        if self.value() < other.value() {
            Some(Ordering::Less)
        } else if self.value() == other.value() {
            Some(Ordering::Equal)
        } else {
            Some(Ordering::Greater)
        }
    }
}

impl Tick {
    /// The raw counter value.
    pub closed spec fn value(self) -> u64 {
        self.0
    }

    /// The tick whose counter is `n`.
    pub closed spec fn at(n: u64) -> Tick {
        Tick(n)
    }

    /// What [`Tick::start`] returns.
    pub open spec fn spec_start() -> Tick {
        Tick::at(0)
    }

    /// What [`Tick::next`] returns where the counter has room to grow.
    pub open spec fn spec_next(self) -> Tick
        recommends
            self.value() < u64::MAX,
    {
        Tick::at((self.value() + 1) as u64)
    }

    /// What [`Tick::advance_by`] returns where the counter has room to grow.
    pub open spec fn spec_advance_by(self, offset: u64) -> Tick
        recommends
            self.value() + offset <= u64::MAX,
    {
        Tick::at((self.value() + offset) as u64)
    }

    /// `at` and `value` are inverse to each other: a tick is its counter.
    pub proof fn lemma_counter(n: u64, t: Tick)
        ensures
            Tick::at(n).value() == n,
            Tick::at(t.value()) == t,
    {
    }

    /// Two ticks with the same counter are the same tick.
    pub proof fn lemma_same_counter(a: Tick, b: Tick)
        requires
            a.value() == b.value(),
        ensures
            a == b,
    {
    }

    /// Stepping twice from any tick is advancing by two.
    pub proof fn lemma_next_twice(t: Tick)
        requires
            t.value() + 2 <= u64::MAX,
        ensures
            t.spec_next().spec_next() == t.spec_advance_by(2),
    {
    }

    /// Advancing by `j` and then by `k` is advancing by their sum.
    pub proof fn lemma_advance_adds(t: Tick, j: u64, k: u64)
        requires
            t.value() + j + k <= u64::MAX,
        ensures
            t.spec_advance_by(j).spec_advance_by(k) == t.spec_advance_by((j + k) as u64),
            t.spec_advance_by(1) == t.spec_next(),
            t.spec_advance_by(0) == t,
    {
    }

    /// The first tick, with counter zero.
    #[verifier::when_used_as_spec(spec_start)]
    pub fn start() -> (t: Tick)
        ensures
            t == Tick::spec_start(),
            t.value() == 0,
    {
        Tick(0)
    }

    /// The tick after this one.
    #[verifier::when_used_as_spec(spec_next)]
    pub fn next(self) -> (t: Tick)
        requires
            self.value() < u64::MAX,
        ensures
            t == self.spec_next(),
            t.value() == self.value() + 1,
    {
        Tick(self.0 + 1)
    }

    /// The tick `offset` steps after this one.
    #[verifier::when_used_as_spec(spec_advance_by)]
    pub fn advance_by(self, offset: u64) -> (t: Tick)
        requires
            self.value() + offset <= u64::MAX,
        ensures
            t == self.spec_advance_by(offset),
            t.value() == self.value() + offset,
    {
        Tick(self.0 + offset)
    }

    /// The raw counter value.
    #[verifier::when_used_as_spec(value)]
    pub fn get(self) -> (n: u64)
        ensures
            n == self.value(),
    {
        self.0
    }
}

/// Nanoseconds in one second.
pub const NANOS_PER_SEC: u32 = 1_000_000_000;

/// The length of a duration in nanoseconds: what `Duration::as_nanos` returns.
pub uninterp spec fn duration_nanos(d: Duration) -> nat;

/// The longest duration that can be held, in nanoseconds: `u64::MAX` whole
/// seconds and one nanosecond short of a further second.
pub open spec fn max_duration_nanos() -> nat {
    (u64::MAX as nat) * (NANOS_PER_SEC as nat) + (NANOS_PER_SEC as nat - 1) as nat
}

/// Calls `Duration::as_nanos`: the total number of nanoseconds that `d` holds.
#[verifier::external_body]
fn total_nanos(d: Duration) -> (n: u128)
    ensures
        n == duration_nanos(d),
{
    d.as_nanos()
}

/// Calls `Duration::new` with whole seconds and less than a second of
/// nanoseconds, so that nothing carries over: the result holds exactly
/// `secs` seconds and `sub_nanos` nanoseconds.
#[verifier::external_body]
fn duration_of(secs: u64, sub_nanos: u32) -> (d: Duration)
    requires
        sub_nanos < NANOS_PER_SEC,
    ensures
        duration_nanos(d) == (secs as nat) * (NANOS_PER_SEC as nat) + (sub_nanos as nat),
{
    Duration::new(secs, sub_nanos)
}

/// `frame_nanos * ticks`, capped at the longest duration.
pub open spec fn scaled_nanos(frame_nanos: nat, ticks: nat) -> nat {
    if frame_nanos * ticks <= max_duration_nanos() {
        frame_nanos * ticks
    } else {
        max_duration_nanos()
    }
}

/// A point in time: a tick together with the duration of one frame.
#[derive(Debug, Clone, Copy, PartialEq, Eq, Hash, PartialOrd, Ord)]
pub struct Timestamp {
    tick: Tick,
    frame_time: Duration,
}

impl Timestamp {
    /// The tick this timestamp was made from.
    pub closed spec fn spec_tick(&self) -> Tick {
        self.tick
    }

    /// The frame duration this timestamp was made from.
    pub closed spec fn frame_time(&self) -> Duration {
        self.frame_time
    }

    /// A timestamp at `tick`, with frames that last `frame_time`.
    pub fn new(tick: Tick, frame_time: Duration) -> (ts: Timestamp)
        ensures
            ts.spec_tick() == tick,
            ts.frame_time() == frame_time,
    {
        Timestamp { tick, frame_time }
    }

    /// Time elapsed since tick zero: the frame duration times the tick's
    /// counter. The product saturates at the longest duration instead of
    /// overflowing.
    pub fn elapsed(&self) -> (d: Duration)
        ensures
            duration_nanos(d) == scaled_nanos(
                duration_nanos(self.frame_time()),
                self.spec_tick().value() as nat,
            ),
    {
        let frame: u128 = total_nanos(self.frame_time);
        let ticks: u128 = self.tick.get() as u128;
        let per_sec: u128 = NANOS_PER_SEC as u128;
        let cap: u128 = (u64::MAX as u128) * per_sec + (per_sec - 1);
        let total: u128 = match frame.checked_mul(ticks) {
            Some(product) => if product <= cap { product } else { cap },
            None => cap,
        };
        let secs: u128 = total / per_sec;
        let sub: u128 = total % per_sec;
        assert(secs <= u64::MAX) by (nonlinear_arith)
            requires
                total <= (u64::MAX as u128) * per_sec + (per_sec - 1),
                per_sec == 1_000_000_000,
                secs == total / per_sec,
        ;
        assert(total == secs * per_sec + sub) by (nonlinear_arith)
            requires
                per_sec == 1_000_000_000,
                secs == total / per_sec,
                sub == total % per_sec,
        ;
        duration_of(secs as u64, sub as u32)
    }

    /// The tick this timestamp was made from.
    #[verifier::when_used_as_spec(spec_tick)]
    pub fn tick(&self) -> (t: Tick)
        ensures
            t == self.spec_tick(),
    {
        self.tick
    }
}

} // verus!
