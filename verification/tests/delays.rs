use delays::cputimer::wait_msec;
use delays::cputimer::SimGenericTimer;
use delays::cycles::wait_cycles;
use delays::cycles::NopCounter;
use delays::systmr::RegisterBlock;
use delays::systmr::SysTmr;
use delays::words::compose;

#[test]
fn compose_zero() {
    assert_eq!(compose(0, 0), 0);
}

#[test]
fn compose_exact_values() {
    assert_eq!(compose(1, 2), 0x1_0000_0002);
    assert_eq!(compose(0, 0x8000_0000), 0x8000_0000);
    assert_eq!(compose(0xffff_ffff, 0xffff_ffff), u64::MAX);
}

#[test]
fn reading_advances_with_counter() {
    // three register accesses, one step each past the start of 5
    let mut t = SysTmr::new(RegisterBlock::new(5, 1));
    let r = t.get_system_timer();
    assert_eq!(r, 8);
    assert_eq!(t.regs.current(), 8);
}

#[test]
fn reading_recovers_from_rollover() {
    // the high word rolls over between the two high-word samples: the
    // reading pairs the fresh high word with a low word taken after the
    // rollover, never the stale high word with the fresh low word
    let mut t = SysTmr::new(RegisterBlock::new(0xffff_fffe, 1));
    let r = t.get_system_timer();
    assert_eq!(r, 0x1_0000_0002);
}

#[test]
fn consecutive_readings_monotonic() {
    let mut t = SysTmr::new(RegisterBlock::new(100, 7));
    let r1 = t.get_system_timer();
    let r2 = t.get_system_timer();
    assert!(r2 >= r1);
    assert_eq!(r1, 121);
    assert_eq!(r2, 142);
}

#[test]
fn readings_stay_ordered_across_detected_rollover() {
    // the second call's two high-word samples straddle the rollover, so
    // its corrective branch runs; the readings still come out in order
    let mut t = SysTmr::new(RegisterBlock::new(0, 0x3800_0000));
    let r1 = t.get_system_timer();
    let r2 = t.get_system_timer();
    assert_eq!(r1, 0xA800_0000);
    assert_eq!(r2, 0x1_8800_0000);
    assert!(r2 >= r1);
}

#[test]
fn zero_counter_returns_at_once() {
    // the absent counter shows zero forever; the wait must not spin
    let mut t = SysTmr::new(RegisterBlock::new(0, 0));
    t.wait_msec_st(1_000_000);
    assert_eq!(t.regs.current(), 0);
}

#[test]
fn wait_reaches_deadline() {
    // baseline reading 1003, so the counter must reach at least 1053
    let mut t = SysTmr::new(RegisterBlock::new(1000, 1));
    t.wait_msec_st(50);
    let c = t.regs.current();
    assert!(c >= 1053);
    assert_eq!(c, 1054);
}

#[test]
fn wait_zero_microseconds_returns_after_baseline() {
    let mut t = SysTmr::new(RegisterBlock::new(10, 2));
    t.wait_msec_st(0);
    assert_eq!(t.regs.current(), 16);
}

#[test]
fn cycle_count_exact() {
    let mut s = NopCounter::new();
    wait_cycles(&mut s, 5);
    assert_eq!(s.count(), 5);
}

#[test]
fn zero_cycles_no_nops() {
    let mut s = NopCounter::new();
    wait_cycles(&mut s, 0);
    assert_eq!(s.count(), 0);
}

#[test]
fn cycle_counts_accumulate() {
    let mut s = NopCounter::new();
    wait_cycles(&mut s, 3);
    wait_cycles(&mut s, 4);
    assert_eq!(s.count(), 7);
}

#[test]
fn generic_timer_disarmed_after_wait() {
    let mut t = SimGenericTimer::new(19_200_000, 0, 10_000);
    wait_msec(&mut t, 2);
    assert!(!t.is_enabled());
    assert!(t.is_masked());
    assert!(t.current() >= 38_400);
}

#[test]
fn generic_timer_waits_full_tick_count() {
    let mut t = SimGenericTimer::new(1_000_000, 0, 1);
    wait_msec(&mut t, 3);
    assert_eq!(t.current(), 3000);
}

#[test]
fn generic_timer_disarmed_for_zero_wait() {
    let mut t = SimGenericTimer::new(19_200_000, 5, 3);
    wait_msec(&mut t, 0);
    assert!(!t.is_enabled());
    assert!(t.is_masked());
}

#[test]
fn generic_timer_disarmed_for_zero_frequency() {
    // a zero frequency register gives a zero tick count and an
    // immediately expired timer; the wait still disarms it
    let mut t = SimGenericTimer::new(0, 7, 3);
    wait_msec(&mut t, 123);
    assert!(!t.is_enabled());
    assert!(t.is_masked());
}
