//! The cycle wait: an approximate delay made of nothing but a counted
//! run of no-operation instructions, needing no timer hardware at all.

use vstd::prelude::*;

verus! {

/// A consumer of the no-operation instructions a cycle wait issues.
///
/// `executed()` counts the no-ops issued so far.
pub trait CycleSink: Sized {
    /// How many no-ops have been issued.
    spec fn executed(&self) -> u64;

    /// Issues one no-op.
    fn nop(&mut self)
        requires
            old(self).executed() < u64::MAX,
        ensures
            final(self).executed() == old(self).executed() + 1,
    ;
}

/// Issues exactly `cyc` no-ops to the sink, one per loop iteration, and
/// returns: an approximate delay whose wall-clock length follows the
/// CPU's own speed, never a calibrated duration.
pub fn wait_cycles<S: CycleSink>(sink: &mut S, cyc: u32)
    requires
        old(sink).executed() + cyc <= u64::MAX,
    ensures
        final(sink).executed() == old(sink).executed() + cyc,
{
    let mut i: u32 = 0;
    while i < cyc
        invariant
            i <= cyc,
            old(sink).executed() + cyc <= u64::MAX,
            sink.executed() == old(sink).executed() + i,
        decreases cyc - i,
    {
        sink.nop();
        i = i + 1;
    }
}

/// A sink that does nothing but count the no-ops issued to it.
pub struct NopCounter {
    count: u64,
}

impl NopCounter {
    /// A counter that has seen no no-ops yet.
    pub fn new() -> (c: NopCounter)
        ensures
            c.executed() == 0,
    {
        NopCounter { count: 0 }
    }

    /// How many no-ops the counter has seen.
    pub fn count(&self) -> (n: u64)
        ensures
            n == self.executed(),
    {
        self.count
    }
}

impl CycleSink for NopCounter {
    closed spec fn executed(&self) -> u64 {
        self.count
    }

    fn nop(&mut self) {
        self.count = self.count + 1;
    }
}

} // verus!
