use riscv_emu::clint::Clint;
use riscv_emu::cpu::csr::Csr;
use riscv_emu::irq::update_irq_lines;
use riscv_emu::plic::{Plic, BASE};

#[test]
fn timer_sets_and_clears_mtip() {
    let mut csr = Csr::new();
    let mut plic = Plic::new();
    let mut clint = Clint::new();
    clint.mtime = 10;
    clint.mtimecmp = 5;
    update_irq_lines(&mut csr, &clint, &mut plic, false, false);
    assert_eq!(csr.mip, 1 << 7);
    clint.mtimecmp = 50;
    update_irq_lines(&mut csr, &clint, &mut plic, false, false);
    assert_eq!(csr.mip, 0);
}

#[test]
fn uart_line_reaches_seip_when_enabled() {
    let mut csr = Csr::new();
    let mut plic = Plic::new();
    let clint = Clint::new();
    plic.store(BASE + 10 * 4, 4, 1);
    plic.store(BASE + 0x2080, 4, 1 << 10);
    update_irq_lines(&mut csr, &clint, &mut plic, true, false);
    assert_eq!(csr.mip, 1 << 9);
    update_irq_lines(&mut csr, &clint, &mut plic, false, false);
    assert_eq!(csr.mip, 0);
}

#[test]
fn disk_line_is_pending_in_the_plic() {
    let mut csr = Csr::new();
    let mut plic = Plic::new();
    let clint = Clint::new();
    update_irq_lines(&mut csr, &clint, &mut plic, false, true);
    assert_eq!(plic.load(BASE + 0x1000, 4), 1 << 1);
    assert_eq!(csr.mip, 0);
}

#[test]
fn stimecmp_drives_stip_once_written() {
    let mut csr = Csr::new();
    let mut plic = Plic::new();
    let mut clint = Clint::new();
    clint.mtime = 100;
    csr.mip = 1 << 5;
    update_irq_lines(&mut csr, &clint, &mut plic, false, false);
    assert_eq!(csr.mip, 1 << 5);
    csr.write(0x14D, 200);
    update_irq_lines(&mut csr, &clint, &mut plic, false, false);
    assert_eq!(csr.mip, 0);
    clint.mtime = 200;
    update_irq_lines(&mut csr, &clint, &mut plic, false, false);
    assert_eq!(csr.mip, 1 << 5);
}
