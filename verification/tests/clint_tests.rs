use riscv_emu::clint::{Clint, MTIMECMP_ADDR, MTIME_ADDR};

#[test]
fn tick_returns_false_when_mtime_below_mtimecmp() {
    let mut c = Clint::new();
    assert!(!c.tick());
    assert!(!c.tick());
}

#[test]
fn tick_returns_true_when_mtime_meets_mtimecmp() {
    let mut c = Clint::new();
    c.mtime = 9;
    c.mtimecmp = 10;
    assert!(c.tick());
}

#[test]
fn tick_continues_true_while_mtime_exceeds_mtimecmp() {
    let mut c = Clint::new();
    c.mtime = 10;
    c.mtimecmp = 10;
    assert!(c.tick());
}

#[test]
fn tick_advances_mtime_by_increment() {
    let mut c = Clint::new();
    c.tick();
    c.tick();
    assert_eq!(c.mtime, 256);
}

#[test]
fn mtimecmp_store_then_load() {
    let mut c = Clint::new();
    c.store(MTIMECMP_ADDR, 8, 0x1234);
    assert_eq!(c.load(MTIMECMP_ADDR, 8), 0x1234);
    assert_eq!(c.mtimecmp, 0x1234);
}

#[test]
fn mtime_is_read_only() {
    let mut c = Clint::new();
    c.mtime = 300;
    c.store(MTIME_ADDR, 8, 77);
    assert_eq!(c.load(MTIME_ADDR, 8), 300);
}

#[test]
fn unknown_clint_register_reads_zero_and_ignores_writes() {
    let mut c = Clint::new();
    c.store(0x0200_0000, 4, 5);
    assert_eq!(c.load(0x0200_0000, 4), 0);
    assert_eq!(c.mtime, 0);
    assert_eq!(c.mtimecmp, u64::MAX);
}
