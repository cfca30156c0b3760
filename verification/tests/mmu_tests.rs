use riscv_emu::bus::Bus;
use riscv_emu::cpu::mmu::{AccessType, Mmu, PTE_A, PTE_D, PTE_R, PTE_U, PTE_V, PTE_W, PTE_X};
use riscv_emu::cpu::PrivMode;

fn bus() -> Bus {
    Bus::new(0x4000, 0x8000_0000)
}

fn map_one_page(b: &mut Bus, leaf_flags: u64) {
    let l2_ppn: u64 = 0x8000_1000 >> 12;
    b.store(0x8000_0000, 8, (l2_ppn << 10) | PTE_V).unwrap();
    let l1_ppn: u64 = 0x8000_2000 >> 12;
    b.store(0x8000_1000, 8, (l1_ppn << 10) | PTE_V).unwrap();
    let target_ppn: u64 = 0x8001_0000 >> 12;
    b.store(0x8000_2000 + 1 * 8, 8, (target_ppn << 10) | leaf_flags).unwrap();
}

#[test]
fn passthrough_when_m_mode() {
    let mut mmu = Mmu::new();
    let mut b = bus();
    let satp_sv39 = (8u64 << 60) | 0x8_0000;
    let result = mmu.translate(&mut b, satp_sv39, PrivMode::M, 0, 0xDEAD_0000, AccessType::Load);
    assert_eq!(result.unwrap(), 0xDEAD_0000);
}

#[test]
fn passthrough_when_satp_mode_zero() {
    let mut mmu = Mmu::new();
    let mut b = bus();
    let satp_bare = 0u64;
    let result = mmu.translate(&mut b, satp_bare, PrivMode::S, 0, 0x8000_0000, AccessType::Load);
    assert_eq!(result.unwrap(), 0x8000_0000);
}

#[test]
fn flush_invalidates_all_entries() {
    let mut mmu = Mmu::new();
    mmu.tlb[0].valid = true;
    mmu.tlb[5].valid = true;
    mmu.flush();
    assert!(mmu.tlb.iter().all(|e| !e.valid));
}

#[test]
fn sv39_4k_page_walk() {
    let mut b = bus();
    let l2_ppn: u64 = 0x8000_1000 >> 12;
    b.store(0x8000_0000, 8, (l2_ppn << 10) | PTE_V).unwrap();
    let l1_ppn: u64 = 0x8000_2000 >> 12;
    b.store(0x8000_1000, 8, (l1_ppn << 10) | PTE_V).unwrap();
    let target_ppn: u64 = 0x8001_0000 >> 12;
    let leaf_pte: u64 = (target_ppn << 10) | PTE_V | PTE_R | PTE_W | PTE_X | PTE_U | PTE_A | PTE_D;
    b.store(0x8000_2000 + 1 * 8, 8, leaf_pte).unwrap();

    let satp: u64 = (8u64 << 60) | (0x8000_0000 >> 12);
    let mstatus: u64 = 1 << 18;
    let mut mmu = Mmu::new();
    let pa = mmu.translate(&mut b, satp, PrivMode::S, mstatus, 0x0000_1ABC, AccessType::Load).unwrap();
    assert_eq!(pa, 0x8001_0ABC);
}

#[test]
fn sv39_bad_va_canonical_check() {
    let mut b = bus();
    let satp: u64 = 8u64 << 60;
    let mut mmu = Mmu::new();
    let bad_va: u64 = 0x0080_0000_0000;
    let result = mmu.translate(&mut b, satp, PrivMode::S, 0, bad_va, AccessType::Load);
    assert_eq!(result.unwrap_err().cause, 13);
}

#[test]
fn sv39_tlb_hit_after_first_walk() {
    let mut b = bus();
    let l2_ppn: u64 = 0x8000_1000 >> 12;
    b.store(0x8000_0000, 8, (l2_ppn << 10) | PTE_V).unwrap();
    let l1_ppn: u64 = 0x8000_2000 >> 12;
    b.store(0x8000_1000, 8, (l1_ppn << 10) | PTE_V).unwrap();
    let target_ppn: u64 = 0x8001_0000 >> 12;
    let leaf_pte: u64 = (target_ppn << 10) | PTE_V | PTE_R | PTE_W | PTE_X | PTE_U | PTE_A | PTE_D;
    b.store(0x8000_2000 + 1 * 8, 8, leaf_pte).unwrap();

    let satp: u64 = (8u64 << 60) | (0x8000_0000 >> 12);
    let mstatus: u64 = 1 << 18;
    let mut mmu = Mmu::new();
    let pa1 = mmu.translate(&mut b, satp, PrivMode::S, mstatus, 0x0000_1000, AccessType::Load).unwrap();
    let pa2 = mmu.translate(&mut b, satp, PrivMode::S, mstatus, 0x0000_1100, AccessType::Load).unwrap();
    assert_eq!(pa1, 0x8001_0000);
    assert_eq!(pa2, 0x8001_0100);
}

#[test]
fn walk_sets_accessed_and_dirty_bits() {
    let mut b = bus();
    map_one_page(&mut b, PTE_V | PTE_R | PTE_W);
    let satp: u64 = (8u64 << 60) | (0x8000_0000 >> 12);
    let mut mmu = Mmu::new();
    mmu.translate(&mut b, satp, PrivMode::S, 0, 0x1008, AccessType::Store).unwrap();
    let pte = b.load(0x8000_2008, 8).unwrap();
    assert_eq!(pte & (PTE_A | PTE_D), PTE_A | PTE_D);
}

#[test]
fn store_to_read_only_page_faults() {
    let mut b = bus();
    map_one_page(&mut b, PTE_V | PTE_R | PTE_A | PTE_D);
    let satp: u64 = (8u64 << 60) | (0x8000_0000 >> 12);
    let mut mmu = Mmu::new();
    let f = mmu.translate(&mut b, satp, PrivMode::S, 0, 0x1008, AccessType::Store).unwrap_err();
    assert_eq!(f.cause, 15);
    assert_eq!(f.tval, 0x1008);
}

#[test]
fn user_page_refused_to_supervisor_without_sum() {
    let mut b = bus();
    map_one_page(&mut b, PTE_V | PTE_R | PTE_U | PTE_A);
    let satp: u64 = (8u64 << 60) | (0x8000_0000 >> 12);
    let mut mmu = Mmu::new();
    let f = mmu.translate(&mut b, satp, PrivMode::S, 0, 0x1000, AccessType::Load).unwrap_err();
    assert_eq!(f.cause, 13);
}

#[test]
fn fetch_from_unmapped_page_faults() {
    let mut b = bus();
    map_one_page(&mut b, PTE_V | PTE_X | PTE_A);
    let satp: u64 = (8u64 << 60) | (0x8000_0000 >> 12);
    let mut mmu = Mmu::new();
    let f = mmu.translate(&mut b, satp, PrivMode::S, 0, 0x3000, AccessType::Fetch).unwrap_err();
    assert_eq!(f.cause, 12);
    assert_eq!(f.tval, 0x3000);
}

#[test]
fn flush_forces_a_new_walk() {
    let mut b = bus();
    map_one_page(&mut b, PTE_V | PTE_R | PTE_A);
    let satp: u64 = (8u64 << 60) | (0x8000_0000 >> 12);
    let mut mmu = Mmu::new();
    assert_eq!(mmu.translate(&mut b, satp, PrivMode::S, 0, 0x1004, AccessType::Load).unwrap(), 0x8001_0004);
    let other_ppn: u64 = 0x8002_0000 >> 12;
    b.store(0x8000_2008, 8, (other_ppn << 10) | PTE_V | PTE_R | PTE_A).unwrap();
    assert_eq!(mmu.translate(&mut b, satp, PrivMode::S, 0, 0x1004, AccessType::Load).unwrap(), 0x8001_0004);
    mmu.flush();
    assert_eq!(mmu.translate(&mut b, satp, PrivMode::S, 0, 0x1004, AccessType::Load).unwrap(), 0x8002_0004);
}

#[test]
fn tlb_hit_dirty_update_keeps_other_pte_bits() {
    let mut b = bus();
    // Leaf with RSW bits (8-9) and a high bit set, accessed but not dirty.
    let rsw_and_high: u64 = (3 << 8) | (1 << 62);
    map_one_page(&mut b, PTE_V | PTE_R | PTE_W | PTE_A | rsw_and_high);
    let satp: u64 = (8u64 << 60) | (0x8000_0000 >> 12);
    let mut mmu = Mmu::new();
    // The load walks and fills the TLB; the store then hits and sets D.
    mmu.translate(&mut b, satp, PrivMode::S, 0, 0x0000_1000, AccessType::Load).unwrap();
    mmu.translate(&mut b, satp, PrivMode::S, 0, 0x0000_1008, AccessType::Store).unwrap();
    let pte = b.load(0x8000_2008, 8).unwrap();
    let target_ppn: u64 = 0x8001_0000 >> 12;
    assert_eq!(pte, (target_ppn << 10) | PTE_V | PTE_R | PTE_W | PTE_A | PTE_D | rsw_and_high);
}

#[test]
fn s_mode_never_fetches_from_a_user_page() {
    let mut b = bus();
    map_one_page(&mut b, PTE_V | PTE_R | PTE_X | PTE_U | PTE_A);
    let satp: u64 = (8u64 << 60) | (0x8000_0000 >> 12);
    let sum: u64 = 1 << 18;
    let mut mmu = Mmu::new();
    let e = mmu.translate(&mut b, satp, PrivMode::S, sum, 0x0000_1000, AccessType::Fetch).unwrap_err();
    assert_eq!(e.cause, 12);
    // With SUM the same page is readable from S-mode.
    assert_eq!(mmu.translate(&mut b, satp, PrivMode::S, sum, 0x0000_1000, AccessType::Load).unwrap(), 0x8001_0000);
}

#[test]
fn walk_ad_update_keeps_other_pte_bits() {
    let mut b = bus();
    let rsw_and_high: u64 = (1 << 9) | (1 << 63) | (1 << 54);
    map_one_page(&mut b, PTE_V | PTE_R | PTE_W | rsw_and_high);
    let satp: u64 = (8u64 << 60) | (0x8000_0000 >> 12);
    let mut mmu = Mmu::new();
    mmu.translate(&mut b, satp, PrivMode::S, 0, 0x0000_1010, AccessType::Store).unwrap();
    let target_ppn: u64 = 0x8001_0000 >> 12;
    assert_eq!(b.load(0x8000_2008, 8).unwrap(), (target_ppn << 10) | PTE_V | PTE_R | PTE_W | PTE_A | PTE_D | rsw_and_high);
}
