//! The system timer: a free-running 64-bit microsecond counter exposed as
//! two 32-bit registers, a race-corrected composed reading of it, and a
//! microsecond busy-wait spinning on that reading.

use vstd::prelude::*;

use crate::words::high_word;
use crate::words::low_word;
use crate::words::word_pair;
use crate::words::compose;
use crate::words::lemma_below_pair_top;
use crate::words::lemma_pair_same_high;
use crate::words::lemma_same_high_between;

verus! {

/// A source of the two 32-bit words of a free-running 64-bit counter.
///
/// `counter()` is the value the counter currently holds; it never
/// decreases. A register access lets the counter advance first and then
/// samples a word of the value reached, so each word returned belongs to
/// the counter value after the call. Between one access and the next the
/// counter makes progress: it moves by at least one, unless it has
/// pegged at the top of its range or is the absent counter that shows
/// zero forever. `accesses()` counts the 32-bit register reads
/// performed.
pub trait TimerRegisters: Sized {
    /// The counter value the device currently holds.
    spec fn counter(&self) -> u64;

    /// How many 32-bit register reads have been performed.
    spec fn accesses(&self) -> nat;

    /// The most the counter can move during one register access.
    spec fn max_step(&self) -> u64;

    /// Reads the high 32-bit register.
    fn read_hi(&mut self) -> (hi: u32)
        ensures
            old(self).counter() <= final(self).counter(),
            old(self).counter() < final(self).counter() || final(self).counter() == u64::MAX
                || final(self).counter() == 0,
            final(self).counter() <= old(self).counter() + old(self).max_step(),
            final(self).max_step() == old(self).max_step(),
            final(self).accesses() == old(self).accesses() + 1,
            hi == high_word(final(self).counter()),
    ;

    /// Reads the low 32-bit register.
    fn read_lo(&mut self) -> (lo: u32)
        ensures
            old(self).counter() <= final(self).counter(),
            old(self).counter() < final(self).counter() || final(self).counter() == u64::MAX
                || final(self).counter() == 0,
            final(self).counter() <= old(self).counter() + old(self).max_step(),
            final(self).max_step() == old(self).max_step(),
            final(self).accesses() == old(self).accesses() + 1,
            lo == low_word(final(self).counter()),
    ;
}

/// The value the read protocol composes, given the counter instants at
/// which its register samples were taken: `c1` and `c2` at the two
/// high-word reads; where those disagree, `c3` at the third high-word
/// read and `c4` at the low-word read; where they agree, `c3` at the
/// low-word read (and `c4` plays no part).
pub open spec fn reading_of(c1: u64, c2: u64, c3: u64, c4: u64) -> u64 {
    if high_word(c1) != high_word(c2) {
        word_pair(high_word(c3), low_word(c4))
    } else {
        word_pair(high_word(c1), low_word(c3))
    }
}

/// The counter value a wait for `n` microseconds past a baseline reading
/// `t` spins for, clipped to the top of the counter's range.
pub open spec fn deadline(t: u64, n: u64) -> u64 {
    if t + n <= u64::MAX {
        (t + n) as u64
    } else {
        u64::MAX
    }
}

/// Whether a wait of `n` past counter value `c`, on a counter that moves
/// at most `m` per register access, stays within the span of `c`'s high
/// word, polling slack included. While that holds, a wait's readings can
/// never be torn, and its outcome is pinned on both sides.
pub open spec fn wait_in_span(c: u64, n: u64, m: u64) -> bool {
    c + n + 16 * m <= word_pair(high_word(c), 0xffff_ffffu32)
}

/// A simulated timer register block: the two 32-bit words of one 64-bit
/// counter that advances by a fixed step — at least one, once running —
/// at every register access, stopping at the top of its range (which a
/// real microsecond counter would take half a million years to reach).
/// A zero start with a zero step models the absent counter that shows
/// zero forever.
pub struct RegisterBlock {
    value: u64,
    step: u64,
    tally: Ghost<nat>,
}

impl RegisterBlock {
    /// A simulated block whose counter starts at `start` and advances by
    /// `step` at each register access.
    pub fn new(start: u64, step: u64) -> (r: RegisterBlock)
        ensures
            r.counter() == start,
            r.accesses() == 0,
            r.step() == step,
            r.max_step() == (if step == 0 {
                1u64
            } else {
                step
            }),
    {
        RegisterBlock { value: start, step, tally: Ghost(0) }
    }

    /// How far the simulated counter advances at each register access.
    pub closed spec fn step(&self) -> u64 {
        self.step
    }

    /// The counter value the simulation currently holds, for inspection
    /// by callers that drive it.
    pub fn current(&self) -> (c: u64)
        ensures
            c == self.counter(),
    {
        self.value
    }

    fn advance(&mut self)
        ensures
            old(self).counter() <= final(self).counter(),
            old(self).counter() < final(self).counter() || final(self).counter() == u64::MAX
                || final(self).counter() == 0,
            final(self).counter() <= old(self).counter() + old(self).max_step(),
            final(self).max_step() == old(self).max_step(),
            final(self).accesses() == old(self).accesses() + 1,
            final(self).step() == old(self).step(),
    {
        if self.value > 0 || self.step > 0 {
            let d: u64 = if self.step == 0 {
                1
            } else {
                self.step
            };
            if self.value <= u64::MAX - d {
                self.value = self.value + d;
            } else {
                self.value = u64::MAX;
            }
        }
        self.tally = Ghost(self.tally@ + 1);
    }
}

impl TimerRegisters for RegisterBlock {
    closed spec fn counter(&self) -> u64 {
        self.value
    }

    closed spec fn accesses(&self) -> nat {
        self.tally@
    }

    closed spec fn max_step(&self) -> u64 {
        if self.step == 0 {
            1
        } else {
            self.step
        }
    }

    fn read_hi(&mut self) -> (hi: u32) {
        self.advance();
        proof {
            let v = self.value;
            assert(v >> 32 <= 0xffff_ffffu64) by (bit_vector);
        }
        (self.value >> 32) as u32
    }

    fn read_lo(&mut self) -> (lo: u32) {
        self.advance();
        proof {
            let v = self.value;
            assert(v & 0xffff_ffff <= 0xffff_ffffu64) by (bit_vector);
        }
        (self.value & 0xffff_ffff) as u32
    }
}

/// Interface to a system timer: race-corrected 64-bit readings of its
/// register pair, and a microsecond busy-wait on top of them.
pub struct SysTmr<R: TimerRegisters> {
    /// The register pair the timer is read through.
    pub regs: R,
}

impl<R: TimerRegisters> SysTmr<R> {
    /// A timer read through the given register pair.
    pub fn new(regs: R) -> (t: SysTmr<R>)
        ensures
            t.regs == regs,
    {
        SysTmr { regs }
    }

    /// The counter value the underlying device currently holds.
    pub open spec fn counter(&self) -> u64 {
        self.regs.counter()
    }

    /// How many 32-bit register reads have been performed.
    pub open spec fn accesses(&self) -> nat {
        self.regs.accesses()
    }

    /// The most the counter can move during one register access.
    pub open spec fn max_step(&self) -> u64 {
        self.regs.max_step()
    }

    /// Returns a composed reading of the 64-bit counter, re-sampling the
    /// high word when it changed between two samples.
    ///
    /// The reading is `reading_of` the three or four counter instants at
    /// which the registers were sampled, in order, all within the span of
    /// the call. Whenever the high word does not change over the whole
    /// call, the reading is one of those instants: a consistent value the
    /// counter actually held, never a torn pairing of the words of two
    /// periods.
    pub fn get_system_timer(&mut self) -> (r: u64)
        ensures
            old(self).counter() <= final(self).counter(),
            old(self).counter() < final(self).counter() || final(self).counter() == u64::MAX
                || final(self).counter() == 0,
            final(self).counter() <= old(self).counter() + 4 * old(self).max_step(),
            final(self).max_step() == old(self).max_step(),
            old(self).accesses() + 3 <= final(self).accesses(),
            final(self).accesses() <= old(self).accesses() + 4,
            exists|c1: u64, c2: u64, c3: u64, c4: u64|
                #![trigger reading_of(c1, c2, c3, c4)]
                old(self).counter() <= c1 <= c2 <= c3 <= c4 <= final(self).counter()
                    && r == reading_of(c1, c2, c3, c4),
            high_word(old(self).counter()) == high_word(final(self).counter()) ==> {
                &&& old(self).counter() <= r <= final(self).counter()
                &&& high_word(r) == high_word(old(self).counter())
            },
    {
        let hi1 = self.regs.read_hi();
        let ghost c1 = self.counter();
        let hi2 = self.regs.read_hi();
        let ghost c2 = self.counter();
        if hi1 != hi2 {
            // The high word rolled over between the two samples: take a
            // fresh high word as authoritative and a low word after it.
            let hi3 = self.regs.read_hi();
            let ghost c3 = self.counter();
            let lo = self.regs.read_lo();
            let ghost c4 = self.counter();
            let r = compose(hi3, lo);
            proof {
                assert(old(self).counter() <= c1 <= c2 <= c3 <= c4 <= self.counter()
                    && r == reading_of(c1, c2, c3, c4));
                if high_word(old(self).counter()) == high_word(self.counter()) {
                    lemma_same_high_between(old(self).counter(), c1, self.counter());
                    lemma_same_high_between(old(self).counter(), c2, self.counter());
                }
            }
            r
        } else {
            let lo = self.regs.read_lo();
            let ghost c3 = self.counter();
            let r = compose(hi1, lo);
            proof {
                assert(old(self).counter() <= c1 <= c2 <= c3 <= c3 <= self.counter()
                    && r == reading_of(c1, c2, c3, c3));
                if high_word(old(self).counter()) == high_word(self.counter()) {
                    lemma_same_high_between(old(self).counter(), c1, self.counter());
                    lemma_same_high_between(old(self).counter(), c3, self.counter());
                    lemma_pair_same_high(c1, c3);
                }
            }
            r
        }
    }

    /// Waits until the counter has advanced `n` microseconds past a
    /// baseline reading taken on entry, returning at once when that
    /// baseline reads zero: a counter that is absent (as under emulators
    /// that leave the peripheral out) shows zero forever, and spinning on
    /// it would never end.
    ///
    /// The wait is a lower bound: on return the counter has reached at
    /// least the baseline plus `n`, never less, whenever the counter's
    /// high word is stable over the call and the counter was running.
    /// It is also no more than a few polls' worth of slack above the
    /// deadline: the overshoot stays within twelve register accesses'
    /// movement of the counter.
    pub fn wait_msec_st(&mut self, n: u64)
        ensures
            old(self).counter() <= final(self).counter(),
            final(self).max_step() == old(self).max_step(),
            high_word(old(self).counter()) == high_word(final(self).counter())
                && old(self).counter() > 0
                ==> final(self).counter() >= deadline(old(self).counter(), n),
            high_word(old(self).counter()) == high_word(final(self).counter())
                && old(self).counter() > 0
                ==> final(self).counter()
                    <= old(self).counter() + n + 12 * old(self).max_step(),
            old(self).counter() > 0 && wait_in_span(old(self).counter(), n, old(self).max_step())
                ==> final(self).counter() >= deadline(old(self).counter(), n)
                    && final(self).counter()
                        <= old(self).counter() + n + 12 * old(self).max_step(),
            old(self).counter() == 0 && final(self).counter() == 0
                ==> final(self).accesses() <= old(self).accesses() + 4,
    {
        let t = self.get_system_timer();
        let ghost c_base = self.counter();
        if t > 0 {
            proof {
                let (c1, c2, c3, c4) = choose|c1: u64, c2: u64, c3: u64, c4: u64|
                    #![trigger reading_of(c1, c2, c3, c4)]
                    old(self).counter() <= c1 <= c2 <= c3 <= c4 <= self.counter()
                        && t == reading_of(c1, c2, c3, c4);
                if c4 == 0 {
                    lemma_reading_of_zero(c1, c2, c3, c4);
                }
                assert(self.counter() > 0);
                if wait_in_span(old(self).counter(), n, old(self).max_step()) {
                    lemma_below_pair_top(old(self).counter(), self.counter());
                }
            }
            let target: u64 = if n <= u64::MAX - t {
                t + n
            } else {
                u64::MAX
            };
            let mut r = t;
            while r < target
                invariant
                    old(self).counter() <= c_base <= self.counter(),
                    0 < self.counter(),
                    target == deadline(t, n),
                    self.max_step() == old(self).max_step(),
                    c_base <= old(self).counter() + 4 * old(self).max_step(),
                    high_word(old(self).counter()) == high_word(c_base)
                        ==> old(self).counter() <= t <= c_base,
                    high_word(old(self).counter()) == high_word(self.counter())
                        ==> r <= self.counter(),
                    high_word(old(self).counter()) == high_word(self.counter())
                        ==> self.counter() <= r + 4 * old(self).max_step(),
                    high_word(old(self).counter()) == high_word(self.counter())
                        ==> self.counter() <= deadline(t, n) + 8 * old(self).max_step(),
                    wait_in_span(old(self).counter(), n, old(self).max_step())
                        ==> high_word(self.counter()) == high_word(old(self).counter()),
                decreases (u64::MAX - self.counter()) * 2 + (if r < target {
                    1int
                } else {
                    0int
                }),
            {
                let ghost pre = self.counter();
                let ghost r_prev = r;
                r = self.get_system_timer();
                proof {
                    if wait_in_span(old(self).counter(), n, old(self).max_step()) {
                        // The whole wait stays under one high word, so no
                        // reading can be torn: each was at least the
                        // counter value before it was taken, and the
                        // counter never runs far past the last reading.
                        lemma_same_high_between(old(self).counter(), c_base, pre);
                        assert(pre <= r_prev + 4 * old(self).max_step());
                        assert(deadline(t, n) <= t + n);
                        assert(self.counter()
                            <= old(self).counter() + n + 12 * old(self).max_step());
                        lemma_below_pair_top(old(self).counter(), self.counter());
                    }
                    if high_word(old(self).counter()) == high_word(self.counter()) {
                        lemma_same_high_between(old(self).counter(), pre, self.counter());
                    }
                    if pre == self.counter() {
                        // No progress: the counter has pegged at the top
                        // of its range, and the fresh reading is that top
                        // value, which meets any target.
                        assert(pre == u64::MAX);
                        assert(r == u64::MAX);
                    }
                }
            }
            proof {
                if high_word(old(self).counter()) == high_word(self.counter()) {
                    lemma_same_high_between(old(self).counter(), c_base, self.counter());
                    assert(deadline(t, n) <= t + n);
                }
            }
        } else {
            proof {
                if old(self).counter() > 0
                    && wait_in_span(old(self).counter(), n, old(self).max_step()) {
                    lemma_below_pair_top(old(self).counter(), self.counter());
                }
            }
        }
    }
}

/// A reading over samples that are all zero is zero: a positive reading
/// shows the counter ran within the span of the call that took it.
pub proof fn lemma_reading_of_zero(c1: u64, c2: u64, c3: u64, c4: u64)
    requires
        c1 <= c2 <= c3 <= c4,
        c4 == 0,
    ensures
        reading_of(c1, c2, c3, c4) == 0,
{
    crate::words::lemma_split(0);
}

/// Law: a reading whose samples saw the high word change between the two
/// initial high-word reads and not afterwards composes the final sample
/// instant itself: the post-rollover high word paired with a low word
/// sampled after the rollover, never the stale high word with a fresh
/// low word.
pub proof fn lemma_rollover_reading(c1: u64, c2: u64, c3: u64, c4: u64)
    requires
        c1 <= c2 <= c3 <= c4,
        high_word(c1) != high_word(c2),
        high_word(c2) == high_word(c4),
    ensures
        reading_of(c1, c2, c3, c4) == c4,
        high_word(reading_of(c1, c2, c3, c4)) == high_word(c4),
{
    lemma_same_high_between(c2, c3, c4);
    lemma_pair_same_high(c3, c4);
}

/// Law: a reading whose samples all lie under one high word is the low
/// sample instant itself.
pub proof fn lemma_stable_reading(c1: u64, c2: u64, c3: u64, c4: u64)
    requires
        c1 <= c2 <= c3,
        high_word(c1) == high_word(c3),
    ensures
        reading_of(c1, c2, c3, c4) == c3,
{
    lemma_same_high_between(c1, c2, c3);
    lemma_pair_same_high(c1, c3);
}

/// Law: of two readings taken one after the other from a counter that
/// only grows, each over samples that lie under one high word, the later
/// reading is never below the earlier.
pub proof fn lemma_readings_monotone(
    c1: u64, c2: u64, c3: u64, c4: u64,
    d1: u64, d2: u64, d3: u64, d4: u64,
)
    requires
        c1 <= c2 <= c3 <= d1 <= d2 <= d3,
        high_word(c1) == high_word(c3),
        high_word(d1) == high_word(d3),
    ensures
        reading_of(c1, c2, c3, c4) <= reading_of(d1, d2, d3, d4),
{
    lemma_stable_reading(c1, c2, c3, c4);
    lemma_stable_reading(d1, d2, d3, d4);
}

/// Law: monotonicity survives a rollover that the later reading's
/// protocol run detects and corrects: the earlier reading over samples
/// under one high word, the later over samples that saw the high word
/// change once between its two initial high-word reads, still come out
/// in order.
pub proof fn lemma_readings_monotone_across_rollover(
    c1: u64, c2: u64, c3: u64, c4: u64,
    d1: u64, d2: u64, d3: u64, d4: u64,
)
    requires
        c1 <= c2 <= c3 <= d1 <= d2 <= d3 <= d4,
        high_word(c1) == high_word(c3),
        high_word(d1) != high_word(d2),
        high_word(d2) == high_word(d4),
    ensures
        reading_of(c1, c2, c3, c4) <= reading_of(d1, d2, d3, d4),
{
    lemma_stable_reading(c1, c2, c3, c4);
    lemma_rollover_reading(d1, d2, d3, d4);
}

} // verus!
