//! Pacing of output to a target throughput, on a clock that the caller reads.
use vstd::prelude::*;

verus! {

/// Shortfalls below this many nanoseconds are not slept, to avoid oversleeping.
pub const MIN_SLEEP_NS: u64 = 1_000_000;

/// Nanoseconds in one second.
pub const NANOS_PER_SEC: u64 = 1_000_000_000;

/// The largest clock reading that `wait` accepts, in nanoseconds.
pub const MAX_CLOCK_NS: u64 = 0x7fff_ffff_ffff_ffff;

/// What a throttle holds: the target rate, the units accepted since the last
/// sleep, and the clock reading that the last sleep ended at.
pub struct ThrottleState {
    pub throughput: Option<u32>,
    pub accepted: u32,
    pub last_sleep_ns: u64,
}

/// The time that `accepted` units take at `throughput` units per second.
pub open spec fn expected_ns(accepted: u32, throughput: u32) -> int {
    (accepted as int * NANOS_PER_SEC) / throughput as int
}

/// How long to sleep at clock reading `now` so that the units accepted since
/// the last sleep do not exceed the rate: the part of the expected time not yet
/// elapsed, or nothing where that part is below the minimum.
pub open spec fn sleep_for(s: ThrottleState, now: u64) -> int {
    match s.throughput {
        None => 0,
        Some(t) => {
            let elapsed = if now >= s.last_sleep_ns { now - s.last_sleep_ns } else { 0int };
            let short = expected_ns(s.accepted, t) - elapsed;
            if short >= MIN_SLEEP_NS { short } else { 0 }
        },
    }
}

/// Paces units of output to a target rate; without a rate it does nothing.
pub struct Throttle {
    throughput: Option<u32>,
    accepted: u32,
    last_sleep_ns: u64,
}

impl View for Throttle {
    type V = ThrottleState;

    closed spec fn view(&self) -> ThrottleState {
        ThrottleState {
            throughput: self.throughput,
            accepted: self.accepted,
            last_sleep_ns: self.last_sleep_ns,
        }
    }
}

impl Throttle {
    /// A throttle whose clock starts at zero, with nothing accepted yet.
    pub fn new(throughput: Option<u32>) -> (r: Self)
        requires
            throughput != Some(0u32),
        ensures
            r@.throughput == throughput,
            r@.accepted == 0,
            r@.last_sleep_ns == 0,
    {
        Throttle { throughput, accepted: 0, last_sleep_ns: 0 }
    }

    /// Counts one more unit of output, when a rate is set (the count stops at
    /// its largest value).
    pub fn accept(&mut self)
        ensures
            final(self)@.throughput == old(self)@.throughput,
            final(self)@.last_sleep_ns == old(self)@.last_sleep_ns,
            final(self)@.accepted == if old(self)@.throughput is Some && old(self)@.accepted < u32::MAX {
                (old(self)@.accepted + 1) as u32
            } else {
                old(self)@.accepted
            },
    {
        if self.throughput.is_some() && self.accepted < u32::MAX {
            self.accepted = self.accepted + 1;
        }
    }

    /// The time in nanoseconds to sleep at clock reading `now_ns` (see
    /// `sleep_for`). Where it is not zero, the count restarts and the clock
    /// reference moves on by the sleep, not to the reading, so that no drift
    /// builds up. Once the sleep is over, the units accepted since the last
    /// sleep are owed less than the minimum sleep from now.
    pub fn wait(&mut self, now_ns: u64) -> (r: u64)
        requires
            old(self)@.throughput != Some(0u32),
            now_ns <= MAX_CLOCK_NS,
        ensures
            r == sleep_for(old(self)@, now_ns),
            r == 0 || r >= MIN_SLEEP_NS,
            final(self)@.throughput == old(self)@.throughput,
            r == 0 ==> final(self)@ == old(self)@,
            r > 0 ==> final(self)@.accepted == 0 && final(self)@.last_sleep_ns == now_ns + r,
            old(self)@.throughput is Some && now_ns >= old(self)@.last_sleep_ns ==> now_ns + r
                + MIN_SLEEP_NS > old(self)@.last_sleep_ns + expected_ns(
                old(self)@.accepted,
                old(self)@.throughput->Some_0,
            ),
            r > 0 && now_ns >= old(self)@.last_sleep_ns ==> final(self)@.last_sleep_ns
                == old(self)@.last_sleep_ns + expected_ns(
                old(self)@.accepted,
                old(self)@.throughput->Some_0,
            ),
    {
        let throughput = match self.throughput {
            None => {
                return 0;
            },
            Some(t) => t,
        };
        let elapsed: u64 = if now_ns >= self.last_sleep_ns {
            now_ns - self.last_sleep_ns
        } else {
            0
        };
        assert(self.accepted as u64 * NANOS_PER_SEC <= u32::MAX as u64 * NANOS_PER_SEC)
            by (nonlinear_arith);
        let product: u64 = self.accepted as u64 * NANOS_PER_SEC;
        let expected: u64 = product / (throughput as u64);
        assert(expected <= product) by (nonlinear_arith)
            requires
                expected as int == product as int / (throughput as int),
                throughput >= 1,
        ;
        let sleep: u64 = if expected > elapsed {
            expected - elapsed
        } else {
            0
        };
        if sleep >= MIN_SLEEP_NS {
            self.last_sleep_ns = now_ns + sleep;
            self.accepted = 0;
            sleep
        } else {
            0
        }
    }
}

} // verus!
