//! Busy-wait delay primitives for early boot code on a bare-metal board:
//! a race-corrected 64-bit reading of a pair of 32-bit counter registers,
//! a microsecond wait spinning on that counter, a microsecond wait driven
//! by the CPU's own generic timer, and a raw cycle-count wait.
//!
//! The register protocols and waiting loops are verified here against
//! models of the devices they poll; the memory-mapped and
//! system-register bindings that run them on hardware live outside the
//! verified library.

pub mod cputimer;
pub mod cycles;
pub mod systmr;
pub mod words;
