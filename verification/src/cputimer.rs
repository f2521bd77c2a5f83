//! The CPU's generic timer: a microsecond busy-wait that programs the
//! architectural compare-value and control registers and polls the
//! expiry flag, independent of any memory-mapped peripheral.

use vstd::prelude::*;

verus! {

/// The architectural timer registers a microsecond wait drives.
///
/// `freq()` is the counter's frequency, fixed by hardware; `now()` the
/// architectural counter, which never decreases and is modelled as
/// advancing only while the expiry flag is polled; `compare()` the
/// absolute counter value the timer expires at; `enabled()` and
/// `masked()` the two control flags: counting on, expiry interrupt held
/// back.
pub trait GenericTimer: Sized {
    /// Ticks of the counter per second, fixed by hardware.
    spec fn freq(&self) -> u64;

    /// The architectural counter's current value.
    spec fn now(&self) -> u64;

    /// The absolute counter value the timer expires at.
    spec fn compare(&self) -> u64;

    /// Whether the timer is counting.
    spec fn enabled(&self) -> bool;

    /// Whether the expiry interrupt is held back.
    spec fn masked(&self) -> bool;

    /// Reads the frequency register.
    fn read_freq(&self) -> (f: u64)
        ensures
            f == self.freq(),
    ;

    /// Writes the compare-value register: the timer is to expire `ticks`
    /// ticks from now.
    fn write_tval(&mut self, ticks: u32)
        requires
            old(self).now() + ticks <= u64::MAX,
        ensures
            final(self).compare() == old(self).now() + ticks,
            final(self).now() == old(self).now(),
            final(self).freq() == old(self).freq(),
            final(self).enabled() == old(self).enabled(),
            final(self).masked() == old(self).masked(),
    ;

    /// Starts the timer counting with its interrupt held back, so expiry
    /// is observed only by polling.
    fn enable_masked(&mut self)
        ensures
            final(self).enabled(),
            final(self).masked(),
            final(self).now() == old(self).now(),
            final(self).freq() == old(self).freq(),
            final(self).compare() == old(self).compare(),
    ;

    /// Reads the expiry status flag, letting the counter advance first:
    /// by at least one, unless it has pegged at the top of its range.
    fn poll_expired(&mut self) -> (expired: bool)
        requires
            old(self).enabled(),
        ensures
            old(self).now() <= final(self).now(),
            old(self).now() < final(self).now() || final(self).now() == u64::MAX,
            final(self).freq() == old(self).freq(),
            final(self).compare() == old(self).compare(),
            final(self).enabled() == old(self).enabled(),
            final(self).masked() == old(self).masked(),
            expired == (final(self).now() >= final(self).compare()),
    ;

    /// Stops the timer counting; the interrupt mask is left as it is.
    fn disable(&mut self)
        ensures
            !final(self).enabled(),
            final(self).now() == old(self).now(),
            final(self).freq() == old(self).freq(),
            final(self).compare() == old(self).compare(),
            final(self).masked() == old(self).masked(),
    ;
}

/// The tick count a wait of `n` microseconds programs into the timer:
/// the frequency scaled down by a thousand, times `n`.
pub open spec fn ticks_of(freq: u64, n: u32) -> int {
    (freq / 1000) * n
}

/// Blocks until `ticks_of(freq, n)` ticks of the architectural counter
/// have passed: programs the compare value, starts the timer with its
/// interrupt held back, polls the expiry flag until it is set, and stops
/// the timer again, leaving nothing armed behind.
///
/// A frequency register below a thousand (zero in particular) yields a
/// zero tick count and an immediately expired timer: the wait still
/// returns with the timer stopped.
pub fn wait_msec<T: GenericTimer>(timer: &mut T, n: u32)
    requires
        old(timer).freq() <= u32::MAX,
        ticks_of(old(timer).freq(), n) <= u32::MAX,
        old(timer).now() + ticks_of(old(timer).freq(), n) <= u64::MAX,
    ensures
        !final(timer).enabled(),
        final(timer).masked(),
        final(timer).freq() == old(timer).freq(),
        final(timer).now() >= old(timer).now() + ticks_of(old(timer).freq(), n),
{
    let frq = timer.read_freq();
    let tval = ((frq as u32) / 1000) * n;
    timer.write_tval(tval);
    timer.enable_masked();
    let mut expired = timer.poll_expired();
    while !expired
        invariant
            timer.enabled(),
            timer.masked(),
            timer.freq() == old(timer).freq(),
            timer.compare() == old(timer).now() + ticks_of(old(timer).freq(), n),
            old(timer).now() <= timer.now(),
            expired == (timer.now() >= timer.compare()),
        decreases u64::MAX - timer.now(),
    {
        expired = timer.poll_expired();
    }
    timer.disable();
}

/// A simulated generic timer: frequency fixed at construction, a counter
/// that advances by a fixed amount — at least one — at each poll of the
/// expiry flag, stopping at the top of its range.
pub struct SimGenericTimer {
    freq: u64,
    now: u64,
    compare: u64,
    enabled: bool,
    masked: bool,
    tick: u64,
}

impl SimGenericTimer {
    /// A simulated timer of the given frequency whose counter starts at
    /// `start` and advances by `tick` at each poll.
    pub fn new(freq: u64, start: u64, tick: u64) -> (t: SimGenericTimer)
        ensures
            t.freq() == freq,
            t.now() == start,
            t.compare() == 0,
            !t.enabled(),
            !t.masked(),
            t.tick() == tick,
    {
        SimGenericTimer { freq, now: start, compare: 0, enabled: false, masked: false, tick }
    }

    /// How far the simulated counter advances at each poll.
    pub closed spec fn tick(&self) -> u64 {
        self.tick
    }

    /// The simulated counter's current value, for inspection by callers
    /// that drive it.
    pub fn current(&self) -> (c: u64)
        ensures
            c == self.now(),
    {
        self.now
    }

    /// Whether the timer is counting, for inspection by callers that
    /// drive it.
    pub fn is_enabled(&self) -> (b: bool)
        ensures
            b == self.enabled(),
    {
        self.enabled
    }

    /// Whether the expiry interrupt is held back, for inspection by
    /// callers that drive it.
    pub fn is_masked(&self) -> (b: bool)
        ensures
            b == self.masked(),
    {
        self.masked
    }
}

impl GenericTimer for SimGenericTimer {
    closed spec fn freq(&self) -> u64 {
        self.freq
    }

    closed spec fn now(&self) -> u64 {
        self.now
    }

    closed spec fn compare(&self) -> u64 {
        self.compare
    }

    closed spec fn enabled(&self) -> bool {
        self.enabled
    }

    closed spec fn masked(&self) -> bool {
        self.masked
    }

    fn read_freq(&self) -> (f: u64) {
        self.freq
    }

    fn write_tval(&mut self, ticks: u32) {
        self.compare = self.now + (ticks as u64);
    }

    fn enable_masked(&mut self) {
        self.enabled = true;
        self.masked = true;
    }

    fn poll_expired(&mut self) -> (expired: bool) {
        let d: u64 = if self.tick == 0 {
            1
        } else {
            self.tick
        };
        if self.now <= u64::MAX - d {
            self.now = self.now + d;
        } else {
            self.now = u64::MAX;
        }
        self.now >= self.compare
    }

    fn disable(&mut self) {
        self.enabled = false;
    }
}

} // verus!
