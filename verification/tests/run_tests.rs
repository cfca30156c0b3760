use riscv_emu::cpu::PrivMode;
use riscv_emu::run::{advance_mtime, after_step, Ran, RunState};

#[test]
fn ticks_count_what_ran() {
    let s = RunState { tick: 10, last_fence_i_flush: 0 };
    assert_eq!(after_step(s, Ran::Interpreted, false, false, false).0.tick, 11);
    assert_eq!(after_step(s, Ran::Block { mode: PrivMode::M }, false, false, false).0.tick, 74);
    assert_eq!(after_step(s, Ran::Block { mode: PrivMode::S }, false, false, false).0.tick, 18);
    let wrap = RunState { tick: u64::MAX, last_fence_i_flush: 0 };
    assert_eq!(after_step(wrap, Ran::Interpreted, false, false, false).0.tick, 0);
}

#[test]
fn devices_are_polled_every_1024_ticks() {
    let s = RunState { tick: 1023, last_fence_i_flush: 0 };
    assert!(after_step(s, Ran::Interpreted, false, false, false).1.poll);
    let s = RunState { tick: 1000, last_fence_i_flush: 0 };
    assert!(!after_step(s, Ran::Interpreted, false, false, false).1.poll);
    let s = RunState { tick: 960, last_fence_i_flush: 0 };
    assert!(after_step(s, Ran::Block { mode: PrivMode::M }, false, false, false).1.poll);
}

#[test]
fn address_space_change_flushes_at_once_and_blocks_compiling() {
    let s = RunState { tick: 5, last_fence_i_flush: 0 };
    let (r, a) = after_step(s, Ran::Interpreted, true, true, false);
    assert!(a.invalidate_jit);
    assert!(!a.compile_after_miss);
    assert_eq!(r.last_fence_i_flush, 0);
    let (_, a) = after_step(s, Ran::Interpreted, true, false, false);
    assert!(!a.invalidate_jit);
    assert!(a.compile_after_miss);
    let (_, a) = after_step(s, Ran::Interpreted, false, false, false);
    assert!(!a.compile_after_miss);
}

#[test]
fn fence_i_flushes_are_rate_limited() {
    let s = RunState { tick: 70_000, last_fence_i_flush: 0 };
    let (r, a) = after_step(s, Ran::Interpreted, true, false, true);
    assert!(a.invalidate_jit);
    assert!(!a.compile_after_miss);
    assert_eq!(r.last_fence_i_flush, 70_000);
    // a second FENCE.I soon after does not flush, and still keeps the miss uncompiled
    let (r2, a2) = after_step(r, Ran::Interpreted, true, false, true);
    assert!(!a2.invalidate_jit);
    assert!(!a2.compile_after_miss);
    assert_eq!(r2.last_fence_i_flush, 70_000);
    // exactly 65536 ticks later it flushes again
    let s3 = RunState { tick: 70_000 + 65_536, last_fence_i_flush: 70_000 };
    assert!(after_step(s3, Ran::Interpreted, false, false, true).1.invalidate_jit);
}

#[test]
fn mtime_runs_at_10_mhz() {
    assert_eq!(advance_mtime(5, 1_000), (15, true));
    assert_eq!(advance_mtime(5, 99), (5, false));
    assert_eq!(advance_mtime(u64::MAX, 250), (1, true));
}
