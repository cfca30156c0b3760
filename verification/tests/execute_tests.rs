use riscv_emu::bus::Bus;
use riscv_emu::cpu::decode::Instruction;
use riscv_emu::cpu::execute::execute;
use riscv_emu::cpu::{Cpu, PrivMode};

fn cpu_with_ram(size: usize) -> Cpu {
    Cpu::new(Bus::new(size, 0x8000_0000), 0x8000_0000, false)
}

#[test]
fn add_wraps() {
    let mut c = cpu_with_ram(64);
    c.set_reg(1, u64::MAX);
    c.set_reg(2, 1);
    execute(&mut c, Instruction::Add { rd: 3, rs1: 1, rs2: 2 }).unwrap();
    assert_eq!(c.reg(3), 0);
}

#[test]
fn slt_signed() {
    let mut c = cpu_with_ram(64);
    c.set_reg(1, (-1i64) as u64);
    c.set_reg(2, 0);
    execute(&mut c, Instruction::Slt { rd: 3, rs1: 1, rs2: 2 }).unwrap();
    assert_eq!(c.reg(3), 1);
}

#[test]
fn sltu_unsigned() {
    let mut c = cpu_with_ram(64);
    c.set_reg(1, (-1i64) as u64);
    c.set_reg(2, 0);
    execute(&mut c, Instruction::Sltu { rd: 3, rs1: 1, rs2: 2 }).unwrap();
    assert_eq!(c.reg(3), 0);
}

#[test]
fn addw_sign_extends() {
    let mut c = cpu_with_ram(64);
    c.set_reg(1, 0x0000_0000_8000_0000);
    c.set_reg(2, 0);
    execute(&mut c, Instruction::Addw { rd: 3, rs1: 1, rs2: 2 }).unwrap();
    assert_eq!(c.reg(3), 0xFFFF_FFFF_8000_0000u64);
}

#[test]
fn jal_sets_rd_and_pc() {
    let mut c = cpu_with_ram(64);
    c.pc = 0x8000_0000;
    execute(&mut c, Instruction::Jal { rd: 1, imm: 8 }).unwrap();
    assert_eq!(c.reg(1), 0x8000_0004);
    assert_eq!(c.pc, 0x8000_0008);
}

#[test]
fn lui_loads_upper() {
    let mut c = cpu_with_ram(64);
    c.pc = 0x8000_0000;
    execute(&mut c, Instruction::Lui { rd: 1, imm: 0x12345000 }).unwrap();
    assert_eq!(c.reg(1), 0x12345000);
}

#[test]
fn mul_lower64() {
    let mut c = cpu_with_ram(64);
    c.set_reg(1, (-1i64) as u64);
    c.set_reg(2, 2u64);
    execute(&mut c, Instruction::Mul { rd: 3, rs1: 1, rs2: 2 }).unwrap();
    assert_eq!(c.reg(3), (-2i64) as u64);
}

#[test]
fn mulh_upper64() {
    let mut c = cpu_with_ram(64);
    c.set_reg(1, i64::MIN as u64);
    c.set_reg(2, (-1i64) as u64);
    execute(&mut c, Instruction::Mulh { rd: 3, rs1: 1, rs2: 2 }).unwrap();
    assert_eq!(c.reg(3), 0);
}

#[test]
fn div_signed_by_zero() {
    let mut c = cpu_with_ram(64);
    c.set_reg(1, 7u64);
    c.set_reg(2, 0u64);
    execute(&mut c, Instruction::Div { rd: 3, rs1: 1, rs2: 2 }).unwrap();
    assert_eq!(c.reg(3), (-1i64) as u64);
}

#[test]
fn div_signed_overflow() {
    let mut c = cpu_with_ram(64);
    c.set_reg(1, i64::MIN as u64);
    c.set_reg(2, (-1i64) as u64);
    execute(&mut c, Instruction::Div { rd: 3, rs1: 1, rs2: 2 }).unwrap();
    assert_eq!(c.reg(3), i64::MIN as u64);
}

#[test]
fn divu_by_zero() {
    let mut c = cpu_with_ram(64);
    c.set_reg(1, 42u64);
    c.set_reg(2, 0u64);
    execute(&mut c, Instruction::Divu { rd: 3, rs1: 1, rs2: 2 }).unwrap();
    assert_eq!(c.reg(3), u64::MAX);
}

#[test]
fn rem_signed_by_zero() {
    let mut c = cpu_with_ram(64);
    c.set_reg(1, 7u64);
    c.set_reg(2, 0u64);
    execute(&mut c, Instruction::Rem { rd: 3, rs1: 1, rs2: 2 }).unwrap();
    assert_eq!(c.reg(3), 7u64);
}

#[test]
fn mulw_sign_extends() {
    let mut c = cpu_with_ram(64);
    c.set_reg(1, 0x0000_0000_8000_0001u64);
    c.set_reg(2, 0x0000_0000_0000_0002u64);
    execute(&mut c, Instruction::Mulw { rd: 3, rs1: 1, rs2: 2 }).unwrap();
    assert_eq!(c.reg(3), 2u64);
}

#[test]
fn lr_sc_success() {
    let mut c = cpu_with_ram(1024);
    c.bus.store(0x8000_0000, 8, 0xABCD_1234u64).unwrap();
    c.set_reg(1, 0x8000_0000);
    execute(&mut c, Instruction::LrD { rd: 2, rs1: 1 }).unwrap();
    assert_eq!(c.reg(2), 0xABCD_1234);
    assert_eq!(c.reservation, Some(0x8000_0000));
    c.set_reg(3, 0xDEAD_BEEF);
    execute(&mut c, Instruction::ScD { rd: 4, rs1: 1, rs2: 3 }).unwrap();
    assert_eq!(c.reg(4), 0);
    assert_eq!(c.reservation, None);
    assert_eq!(c.bus.load(0x8000_0000, 8).unwrap(), 0xDEAD_BEEF);
}

#[test]
fn sc_failure_clears_reservation() {
    let mut c = cpu_with_ram(1024);
    c.reservation = None;
    c.set_reg(1, 0x8000_0000);
    c.set_reg(2, 42);
    execute(&mut c, Instruction::ScD { rd: 3, rs1: 1, rs2: 2 }).unwrap();
    assert_eq!(c.reg(3), 1);
    assert_eq!(c.reservation, None);
}

#[test]
fn amoadd_d() {
    let mut c = cpu_with_ram(1024);
    c.bus.store(0x8000_0000, 8, 10u64).unwrap();
    c.set_reg(1, 0x8000_0000);
    c.set_reg(2, 5u64);
    execute(&mut c, Instruction::AmoaddD { rd: 3, rs1: 1, rs2: 2 }).unwrap();
    assert_eq!(c.reg(3), 10);
    assert_eq!(c.bus.load(0x8000_0000, 8).unwrap(), 15);
}

#[test]
fn amomin_d_signed() {
    let mut c = cpu_with_ram(1024);
    c.bus.store(0x8000_0000, 8, (-3i64) as u64).unwrap();
    c.set_reg(1, 0x8000_0000);
    c.set_reg(2, (-5i64) as u64);
    execute(&mut c, Instruction::AmominD { rd: 3, rs1: 1, rs2: 2 }).unwrap();
    assert_eq!(c.reg(3), (-3i64) as u64);
    assert_eq!(c.bus.load(0x8000_0000, 8).unwrap(), (-5i64) as u64);
}

#[test]
fn lb_sign_extends_and_lbu_does_not() {
    let mut c = cpu_with_ram(64);
    c.bus.store(0x8000_0010, 1, 0x80).unwrap();
    c.set_reg(1, 0x8000_0000);
    execute(&mut c, Instruction::Lb { rd: 2, rs1: 1, imm: 0x10 }).unwrap();
    execute(&mut c, Instruction::Lbu { rd: 3, rs1: 1, imm: 0x10 }).unwrap();
    assert_eq!(c.reg(2), 0xFFFF_FFFF_FFFF_FF80);
    assert_eq!(c.reg(3), 0x80);
    assert_eq!(c.pc, 0x8000_0008);
}

#[test]
fn sw_then_lw_round_trips() {
    let mut c = cpu_with_ram(64);
    c.set_reg(1, 0x8000_0020);
    c.set_reg(2, 0x1234_5678_9ABC_DEF0);
    execute(&mut c, Instruction::Sw { rs1: 1, rs2: 2, imm: -8 }).unwrap();
    execute(&mut c, Instruction::Lw { rd: 3, rs1: 1, imm: -8 }).unwrap();
    assert_eq!(c.reg(3), 0xFFFF_FFFF_9ABC_DEF0);
    assert_eq!(c.bus.load(0x8000_0018, 8).unwrap(), 0x9ABC_DEF0);
}

#[test]
fn load_outside_ram_traps_with_access_fault() {
    let mut c = cpu_with_ram(64);
    c.csr.mtvec = 0x8000_0020;
    c.set_reg(1, 0x1000);
    execute(&mut c, Instruction::Ld { rd: 2, rs1: 1, imm: 0 }).unwrap();
    assert_eq!(c.csr.mcause, 5);
    assert_eq!(c.csr.mtval, 0x1000);
    assert_eq!(c.csr.mepc, 0x8000_0000);
    assert_eq!(c.pc, 0x8000_0020);
}

#[test]
fn beq_taken_and_bne_not_taken() {
    let mut c = cpu_with_ram(64);
    c.set_reg(1, 5);
    c.set_reg(2, 5);
    execute(&mut c, Instruction::Beq { rs1: 1, rs2: 2, imm: 16 }).unwrap();
    assert_eq!(c.pc, 0x8000_0010);
    execute(&mut c, Instruction::Bne { rs1: 1, rs2: 2, imm: 16 }).unwrap();
    assert_eq!(c.pc, 0x8000_0014);
}

#[test]
fn jalr_clears_low_bit() {
    let mut c = cpu_with_ram(64);
    c.set_reg(5, 0x8000_0101);
    execute(&mut c, Instruction::Jalr { rd: 1, rs1: 5, imm: 2 }).unwrap();
    assert_eq!(c.pc, 0x8000_0102);
    assert_eq!(c.reg(1), 0x8000_0004);
}

#[test]
fn ecall_from_m_mode_traps_with_cause_11() {
    let mut c = cpu_with_ram(64);
    c.csr.mtvec = 0x8000_0040;
    execute(&mut c, Instruction::Ecall).unwrap();
    assert_eq!(c.csr.mcause, 11);
    assert_eq!(c.csr.mepc, 0x8000_0000);
    assert_eq!(c.pc, 0x8000_0040);
}

#[test]
fn csrrw_swaps_register_and_csr() {
    let mut c = cpu_with_ram(64);
    c.csr.mscratch = 7;
    c.set_reg(1, 9);
    execute(&mut c, Instruction::Csrrw { rd: 2, rs1: 1, csr: 0x340 }).unwrap();
    assert_eq!(c.reg(2), 7);
    assert_eq!(c.csr.mscratch, 9);
}

#[test]
fn csrrs_sets_bits() {
    let mut c = cpu_with_ram(64);
    c.csr.mie = 0x8;
    c.set_reg(1, 0x80);
    execute(&mut c, Instruction::Csrrs { rd: 2, rs1: 1, csr: 0x304 }).unwrap();
    assert_eq!(c.reg(2), 0x8);
    assert_eq!(c.csr.mie, 0x88);
}

#[test]
fn sra_shifts_arithmetically() {
    let mut c = cpu_with_ram(64);
    c.set_reg(1, 0x8000_0000_0000_0000);
    c.set_reg(2, 4);
    execute(&mut c, Instruction::Sra { rd: 3, rs1: 1, rs2: 2 }).unwrap();
    assert_eq!(c.reg(3), 0xF800_0000_0000_0000);
}

#[test]
fn remu_by_zero_returns_dividend() {
    let mut c = cpu_with_ram(64);
    c.set_reg(1, 42);
    execute(&mut c, Instruction::Remu { rd: 3, rs1: 1, rs2: 0 }).unwrap();
    assert_eq!(c.reg(3), 42);
}

#[test]
fn divw_sign_extends_quotient() {
    let mut c = cpu_with_ram(64);
    c.set_reg(1, (-7i64) as u64);
    c.set_reg(2, 2);
    execute(&mut c, Instruction::Divw { rd: 3, rs1: 1, rs2: 2 }).unwrap();
    assert_eq!(c.reg(3), (-3i64) as u64);
}

#[test]
fn mulhu_upper_unsigned() {
    let mut c = cpu_with_ram(64);
    c.set_reg(1, u64::MAX);
    c.set_reg(2, u64::MAX);
    execute(&mut c, Instruction::Mulhu { rd: 3, rs1: 1, rs2: 2 }).unwrap();
    assert_eq!(c.reg(3), u64::MAX - 1);
}

#[test]
fn auipc_adds_pc() {
    let mut c = cpu_with_ram(64);
    execute(&mut c, Instruction::Auipc { rd: 1, imm: 0x1000 }).unwrap();
    assert_eq!(c.reg(1), 0x8000_1000);
}

#[test]
fn amoswap_w_sign_extends_old_value() {
    let mut c = cpu_with_ram(64);
    c.bus.store(0x8000_0000, 4, 0xFFFF_FFFE).unwrap();
    c.set_reg(1, 0x8000_0000);
    c.set_reg(2, 3);
    execute(&mut c, Instruction::AmoswapW { rd: 3, rs1: 1, rs2: 2 }).unwrap();
    assert_eq!(c.reg(3), (-2i64) as u64);
    assert_eq!(c.bus.load(0x8000_0000, 4).unwrap(), 3);
}

#[test]
fn mret_returns_to_mepc_and_mpp() {
    let mut c = cpu_with_ram(64);
    c.csr.mepc = 0x8000_0030;
    c.csr.mstatus = (1 << 11) | (1 << 7);
    execute(&mut c, Instruction::Mret).unwrap();
    assert_eq!(c.pc, 0x8000_0030);
    assert_eq!(c.mode, riscv_emu::cpu::PrivMode::S);
    assert_eq!(c.csr.mstatus & (1 << 3), 1 << 3);
}

#[test]
fn trap_then_mret_returns_to_the_trapping_point() {
    let mut c = cpu_with_ram(64);
    c.mode = PrivMode::S;
    c.pc = 0x8000_0020;
    c.csr.mtvec = 0x8000_0100;
    c.csr.mstatus = 1 << 3;
    c.deliver_trap(2, 0);
    assert_eq!(c.mode, PrivMode::M);
    assert_eq!(c.pc, 0x8000_0100);
    execute(&mut c, Instruction::Mret).unwrap();
    assert_eq!(c.pc, 0x8000_0020);
    assert_eq!(c.mode, PrivMode::S);
    assert_eq!((c.csr.mstatus >> 3) & 1, 1);
}

#[test]
fn delegated_trap_then_sret_returns_to_the_trapping_point() {
    let mut c = cpu_with_ram(64);
    c.mode = PrivMode::U;
    c.pc = 0x8000_0024;
    c.csr.medeleg = 1 << 8;
    c.csr.stvec = 0x8000_0200;
    c.csr.mstatus = 1 << 1;
    c.deliver_trap(8, 0);
    assert_eq!(c.mode, PrivMode::S);
    assert_eq!(c.pc, 0x8000_0200);
    execute(&mut c, Instruction::Sret).unwrap();
    assert_eq!(c.pc, 0x8000_0024);
    assert_eq!(c.mode, PrivMode::U);
    assert_eq!((c.csr.mstatus >> 1) & 1, 1);
}

#[test]
fn fence_i_flags_compiled_code_for_flushing() {
    let mut c = cpu_with_ram(64);
    assert!(!c.fence_i_pending);
    execute(&mut c, Instruction::Fence).unwrap();
    assert!(!c.fence_i_pending);
    assert_eq!(c.pc, 0x8000_0004);
    execute(&mut c, Instruction::FenceI).unwrap();
    assert!(c.fence_i_pending);
    assert_eq!(c.pc, 0x8000_0008);
}

#[test]
fn sfence_vma_drops_compiled_code() {
    let mut c = cpu_with_ram(64);
    assert!(!c.jit_invalidate);
    execute(&mut c, Instruction::SfenceVma).unwrap();
    assert!(c.jit_invalidate);
    assert_eq!(c.pc, 0x8000_0004);
}
