use riscv_emu::plic::{Plic, BASE};

const S_ENABLE: u64 = BASE + 0x2080;
const S_CLAIM: u64 = BASE + 0x201004;
const S_THRESHOLD: u64 = BASE + 0x201000;

fn prio(p: &mut Plic, irq: u64, v: u64) {
    p.store(BASE + irq * 4, 4, v);
}

#[test]
fn new_plic_has_no_interrupt() {
    let p = Plic::new();
    assert!(!p.has_interrupt());
}

#[test]
fn enabled_pending_irq_with_priority_is_claimable() {
    let mut p = Plic::new();
    prio(&mut p, 10, 1);
    p.store(S_ENABLE, 4, 1 << 10);
    p.set_pending(10, true);
    assert!(p.has_interrupt());
    assert_eq!(p.load(S_CLAIM, 4), 10);
    assert!(!p.has_interrupt());
    assert_eq!(p.load(S_CLAIM, 4), 0);
}

#[test]
fn claim_picks_highest_priority() {
    let mut p = Plic::new();
    prio(&mut p, 3, 2);
    prio(&mut p, 5, 7);
    prio(&mut p, 9, 7);
    p.store(S_ENABLE, 4, (1 << 3) | (1 << 5) | (1 << 9));
    p.set_pending(3, true);
    p.set_pending(5, true);
    p.set_pending(9, true);
    assert_eq!(p.load(S_CLAIM, 4), 5);
    assert_eq!(p.load(S_CLAIM, 4), 9);
    assert_eq!(p.load(S_CLAIM, 4), 3);
}

#[test]
fn threshold_masks_low_priorities() {
    let mut p = Plic::new();
    prio(&mut p, 4, 2);
    p.store(S_ENABLE, 4, 1 << 4);
    p.store(S_THRESHOLD, 4, 2);
    p.set_pending(4, true);
    assert!(!p.has_interrupt());
    assert_eq!(p.load(S_THRESHOLD, 4), 2);
}

#[test]
fn disabled_irq_is_not_claimable() {
    let mut p = Plic::new();
    prio(&mut p, 7, 1);
    p.set_pending(7, true);
    assert!(!p.has_interrupt());
}

#[test]
fn complete_clears_pending() {
    let mut p = Plic::new();
    prio(&mut p, 2, 1);
    p.store(S_ENABLE, 4, 1 << 2);
    p.set_pending(2, true);
    p.store(S_CLAIM, 4, 2);
    assert!(!p.has_interrupt());
}

#[test]
fn pending_words_read_back() {
    let mut p = Plic::new();
    p.set_pending(1, true);
    p.set_pending(40, true);
    p.set_pending(100, true);
    assert_eq!(p.load(BASE + 0x1000, 4), 2);
    assert_eq!(p.load(BASE + 0x1004, 4), 1 << 8);
    p.set_pending(1, false);
    assert_eq!(p.load(BASE + 0x1000, 4), 0);
}

#[test]
fn priority_and_enable_read_back() {
    let mut p = Plic::new();
    prio(&mut p, 127, 0x1_0000_0003);
    assert_eq!(p.load(BASE + 127 * 4, 4), 3);
    p.store(BASE + 0x2004, 4, 0xF0);
    assert_eq!(p.load(BASE + 0x2004, 4), 0xF0);
    assert_eq!(p.load(BASE + 0x2000, 4), 0);
}
