use riscv_emu::cpu::csr::Csr;

#[test]
fn misa_hardwired() {
    let mut csr = Csr::new();
    assert_eq!(csr.read(0x301), 0x8000_0000_0000_1101);
    csr.write(0x301, 0);
    assert_eq!(csr.read(0x301), 0x8000_0000_0000_1101);
}

#[test]
fn mhartid_hardwired_zero() {
    let mut csr = Csr::new();
    assert_eq!(csr.read(0xf14), 0);
    csr.write(0xf14, 0xdead);
    assert_eq!(csr.read(0xf14), 0);
}

#[test]
fn mtvec_round_trips() {
    let mut csr = Csr::new();
    csr.write(0x305, 0x8000_1000);
    assert_eq!(csr.read(0x305), 0x8000_1000);
}

#[test]
fn unknown_csr_reads_zero() {
    let csr = Csr::new();
    assert_eq!(csr.read(0x999), 0);
}

#[test]
fn mepc_write_clears_low_bit() {
    let mut csr = Csr::new();
    csr.write(0x341, 0x8000_0003);
    assert_eq!(csr.read(0x341), 0x8000_0002);
}

#[test]
fn sstatus_is_a_masked_view_of_mstatus() {
    let mut csr = Csr::new();
    csr.write(0x300, u64::MAX);
    assert_eq!(csr.read(0x100), 0x8000_0003_000D_E162);
    csr.write(0x100, 0);
    assert_eq!(csr.read(0x300), u64::MAX & !0x8000_0003_000D_E162);
}

#[test]
fn sie_is_a_masked_view_of_mie() {
    let mut csr = Csr::new();
    csr.write(0x104, u64::MAX);
    assert_eq!(csr.read(0x304), 0x222);
    assert_eq!(csr.read(0x104), 0x222);
}

#[test]
fn trap_entry_and_mret_move_interrupt_enable() {
    let mut csr = Csr::new();
    csr.mstatus = 1 << 3;
    csr.trap_entry(1);
    assert_eq!(csr.mstatus, (1 << 7) | (1 << 11));
    csr.mret();
    assert_eq!(csr.mstatus, (1 << 3) | (1 << 7));
}

#[test]
fn s_trap_entry_and_sret_move_interrupt_enable() {
    let mut csr = Csr::new();
    csr.mstatus = 1 << 1;
    csr.s_trap_entry(true);
    assert_eq!(csr.mstatus, (1 << 5) | (1 << 8));
    csr.s_ret();
    assert_eq!(csr.mstatus, (1 << 1) | (1 << 5));
}

#[test]
fn default_matches_new() {
    let a = Csr::default();
    let b = Csr::new();
    assert_eq!(a, b);
}

#[test]
fn stimecmp_resets_to_all_ones_and_round_trips() {
    let mut csr = Csr::new();
    assert_eq!(csr.read(0x14D), u64::MAX);
    csr.write(0x14D, 1234);
    assert_eq!(csr.read(0x14D), 1234);
}

#[test]
fn medeleg_round_trips() {
    let mut csr = Csr::new();
    csr.write(0x302, 0xB109);
    assert_eq!(csr.read(0x302), 0xB109);
}

#[test]
fn mepc_preserves_rvc_alignment() {
    let mut csr = Csr::new();
    csr.write(0x341, 0x8000_1002);
    assert_eq!(csr.read(0x341), 0x8000_1002);
    csr.write(0x341, 0x8000_1001);
    assert_eq!(csr.read(0x341), 0x8000_1000);
}

#[test]
fn sepc_preserves_rvc_alignment() {
    let mut csr = Csr::new();
    csr.write(0x141, 0x8000_1002);
    assert_eq!(csr.read(0x141), 0x8000_1002);
    csr.write(0x141, 0x8000_1003);
    assert_eq!(csr.read(0x141), 0x8000_1002);
}

#[test]
fn mtvec_stores_vectored_mode_bits() {
    let mut csr = Csr::new();
    csr.write(0x305, 0x8000_1001);
    assert_eq!(csr.read(0x305), 0x8000_1001);
}

#[test]
fn sie_filters_mie() {
    let mut csr = Csr::new();
    csr.mie = 0xFFFF_FFFF;
    assert_eq!(csr.read(0x104), 0x222);
    csr.write(0x104, 0xFFFF);
    assert_eq!(csr.mie & !0x222, 0xFFFF_FFFF & !0x222);
    assert_eq!(csr.mie & 0x222, 0x222);
}

#[test]
fn sstatus_filters_mstatus() {
    let mut csr = Csr::new();
    csr.mstatus = 0x2;
    let sstatus = csr.read(0x100);
    assert_eq!(sstatus & 0x2, 0x2);
    assert_eq!((sstatus >> 32) & 3, 2);
    csr.mstatus = 0x8;
    assert_eq!(csr.read(0x100) & 0x8, 0);
}

#[test]
fn s_ret_restores_sie() {
    let mut csr = Csr::new();
    csr.mstatus = 0b0010_0000;
    csr.s_ret();
    assert_eq!((csr.mstatus >> 1) & 1, 1);
    assert_eq!((csr.mstatus >> 5) & 1, 1);
    assert_eq!((csr.mstatus >> 8) & 1, 0);
}

#[test]
fn s_trap_entry_from_s_mode() {
    let mut csr = Csr::new();
    csr.mstatus = 0b0000_0010;
    csr.s_trap_entry(true);
    assert_eq!((csr.mstatus >> 8) & 1, 1);
}

#[test]
fn s_trap_entry_from_u_mode() {
    let mut csr = Csr::new();
    csr.mstatus = 0b0000_0010;
    csr.s_trap_entry(false);
    assert_eq!((csr.mstatus >> 1) & 1, 0);
    assert_eq!((csr.mstatus >> 5) & 1, 1);
    assert_eq!((csr.mstatus >> 8) & 1, 0);
}

#[test]
fn mstatus_mie_mpie_mpp() {
    let mut csr = Csr::new();
    csr.mstatus = 0b1000;
    assert_eq!(csr.mie_bit(), 1);
    csr.trap_entry(3);
    assert_eq!(csr.mie_bit(), 0);
    assert_eq!((csr.mstatus >> 7) & 1, 1);
    assert_eq!((csr.mstatus >> 11) & 3, 3);
    csr.mret();
    assert_eq!(csr.mie_bit(), 1);
    assert_eq!((csr.mstatus >> 7) & 1, 1);
}
