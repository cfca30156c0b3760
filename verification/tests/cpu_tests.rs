use riscv_emu::bus::Bus;
use riscv_emu::cpu::decode::Instruction;
use riscv_emu::cpu::execute::execute;
use riscv_emu::cpu::{reg_changes, Cpu, PrivMode};

fn cpu() -> Cpu {
    Cpu::new(Bus::new(64, 0x8000_0000), 0x8000_0000, false)
}

#[test]
fn x0_always_zero() {
    let mut c = cpu();
    c.set_reg(0, 0xDEAD);
    assert_eq!(c.reg(0), 0);
}

#[test]
fn reg_read_write() {
    let mut c = cpu();
    c.set_reg(5, 0xCAFE);
    assert_eq!(c.reg(5), 0xCAFE);
}

#[test]
fn step_delivers_illegal_instruction_trap() {
    let mut c = Cpu::new(Bus::new(64, 0x8000_0000), 0x8000_0000, false);
    c.csr.mtvec = 0x8000_0010;
    c.bus.store(0x8000_0000, 4, 0xDEAD_BEFFu64).unwrap();
    c.step().unwrap();
    assert_eq!(c.pc, 0x8000_0010);
    assert_eq!(c.csr.mcause, 2);
    assert_eq!(c.csr.mtval, 0xDEAD_BEFF);
    assert_eq!(c.csr.mepc, 0x8000_0000);
}

#[test]
fn step_delivers_fetch_fault_on_bad_address() {
    let mut c = Cpu::new(Bus::new(64, 0x8000_0000), 0x8000_0000, false);
    c.csr.mtvec = 0x8000_0010;
    c.pc = 0x0000_0000;
    c.step().unwrap();
    assert_eq!(c.pc, 0x8000_0010);
    assert_eq!(c.csr.mcause, 1);
    assert_eq!(c.csr.mtval, 0x0000_0000);
}

#[test]
fn step_runs_addi() {
    let mut c = cpu();
    // addi x1, x0, 42
    c.bus.store(0x8000_0000, 4, 0x02A0_0093).unwrap();
    c.step().unwrap();
    assert_eq!(c.reg(1), 42);
    assert_eq!(c.pc, 0x8000_0004);
}

#[test]
fn new_cpu_starts_in_machine_mode() {
    let c = cpu();
    assert_eq!(c.mode, PrivMode::M);
    assert_eq!(c.pc, 0x8000_0000);
    assert_eq!(c.reservation, None);
    assert_eq!(c.csr.misa, 0x8000_0000_0000_1101);
}

#[test]
fn delegated_exception_goes_to_supervisor() {
    let mut c = cpu();
    c.mode = PrivMode::U;
    c.csr.medeleg = 1 << 8;
    c.csr.stvec = 0x8000_0100;
    c.pc = 0x8000_0020;
    c.deliver_trap(8, 0);
    assert_eq!(c.mode, PrivMode::S);
    assert_eq!(c.pc, 0x8000_0100);
    assert_eq!(c.csr.scause, 8);
    assert_eq!(c.csr.sepc, 0x8000_0020);
    assert_eq!(c.csr.mcause, 0);
}

#[test]
fn trap_from_machine_mode_is_never_delegated() {
    let mut c = cpu();
    c.csr.medeleg = u64::MAX;
    c.csr.mtvec = 0x8000_0200;
    c.deliver_trap(2, 7);
    assert_eq!(c.mode, PrivMode::M);
    assert_eq!(c.pc, 0x8000_0200);
    assert_eq!(c.csr.mcause, 2);
    assert_eq!(c.csr.mtval, 7);
}

#[test]
fn vectored_interrupt_jumps_into_table() {
    let mut c = cpu();
    c.csr.mtvec = 0x8000_0101;
    c.deliver_trap((1u64 << 63) | 7, 0);
    assert_eq!(c.pc, 0x8000_011C);
    c.csr.mtvec = 0x8000_0101;
    c.deliver_trap(2, 0);
    assert_eq!(c.pc, 0x8000_0100);
}

#[test]
fn csr_write_through_cpu() {
    let mut c = cpu();
    c.csr_write(0x305, 0x8000_0400);
    assert_eq!(c.csr_read(0x305), 0x8000_0400);
}

#[test]
fn check_interrupts_fires_mti_in_m_mode_with_mie_set() {
    let mut c = cpu();
    c.csr.mtvec = 0x8000_0100;
    c.csr.mie = 1 << 7;
    c.csr.mip = 1 << 7;
    c.csr.mstatus = 1 << 3;
    c.mode = PrivMode::M;
    c.step().unwrap();
    assert_eq!(c.csr.mcause, (1u64 << 63) | 7);
    assert_eq!(c.pc, 0x8000_0100);
}

#[test]
fn check_interrupts_does_not_fire_when_mie_clear() {
    let mut c = cpu();
    c.csr.mtvec = 0x8000_0100;
    c.csr.mie = 1 << 7;
    c.csr.mip = 1 << 7;
    c.csr.mstatus = 0;
    c.mode = PrivMode::M;
    c.bus.store(0x8000_0000, 4, 0x00000013u64).unwrap();
    c.step().unwrap();
    assert_eq!(c.csr.mcause, 0);
    assert_eq!(c.pc, 0x8000_0004);
}

#[test]
fn check_interrupts_routes_delegated_sti_to_s_mode() {
    let mut c = cpu();
    c.csr.stvec = 0x8000_0200;
    c.csr.mtvec = 0x8000_0100;
    c.csr.mie = 1 << 5;
    c.csr.mip = 1 << 5;
    c.csr.mideleg = 1 << 5;
    c.csr.mstatus = 1 << 1;
    c.mode = PrivMode::S;
    c.step().unwrap();
    assert_eq!(c.csr.scause, (1u64 << 63) | 5);
    assert_eq!(c.mode, PrivMode::S);
    assert_eq!(c.csr.mcause, 0);
}

#[test]
fn machine_external_interrupt_beats_timer() {
    let mut c = cpu();
    c.csr.mtvec = 0x8000_0101;
    c.csr.mie = (1 << 7) | (1 << 11);
    c.csr.mip = (1 << 7) | (1 << 11);
    c.csr.mstatus = 1 << 3;
    assert!(c.check_interrupts());
    assert_eq!(c.csr.mcause, (1u64 << 63) | 11);
    assert_eq!(c.pc, 0x8000_0100 + 11 * 4);
    assert!(!c.check_interrupts());
}

#[test]
fn non_delegated_interrupt_preempts_user_mode() {
    let mut c = cpu();
    c.mode = PrivMode::U;
    c.csr.mie = 1 << 7;
    c.csr.mip = 1 << 7;
    assert!(c.check_interrupts());
    assert_eq!(c.mode, PrivMode::M);
}

#[test]
fn reg_changes_lists_changed_registers() {
    let before = [0u64; 32];
    let mut after = [0u64; 32];
    after[0] = 9;
    after[3] = 7;
    after[31] = 1;
    assert_eq!(reg_changes(&before, &after), vec![(3, 0, 7), (31, 0, 1)]);
}

#[test]
fn step_rvc_c_nop_advances_pc_by_2() {
    let mut c = Cpu::new(Bus::new(64, 0x8000_0000), 0x8000_0000, false);
    c.csr.mtvec = 0x8000_0100;
    c.bus.store(0x8000_0000, 2, 0x0001u64).unwrap();
    c.step().unwrap();
    assert_eq!(c.pc, 0x8000_0002);
    assert_eq!(c.csr.mcause, 0);
    assert_eq!(c.inst_size, 2);
}

#[test]
fn step_rvc_at_end_of_ram_succeeds() {
    // A compressed instruction in the last two bytes of RAM is fetched without
    // touching the (absent) bytes after it.
    let mut c = Cpu::new(Bus::new(64, 0x8000_0000), 0x8000_003E, false);
    c.csr.mtvec = 0x8000_0010;
    c.bus.store(0x8000_003E, 2, 0x0085u64).unwrap(); // C.ADDI x1, 1
    c.step().unwrap();
    assert_eq!(c.pc, 0x8000_0040);
    assert_eq!(c.csr.mcause, 0);
    assert_eq!(c.reg(1), 1);
}

#[test]
fn step_rvc_jal_links_pc_plus_2() {
    let mut c = cpu();
    c.bus.store(0x8000_0000, 2, 0x9282u64).unwrap(); // C.JALR x5
    c.set_reg(5, 0x8000_0020);
    c.step().unwrap();
    assert_eq!(c.pc, 0x8000_0020);
    assert_eq!(c.reg(1), 0x8000_0002);
}

#[test]
fn step_illegal_compressed_traps_with_its_bits() {
    let mut c = cpu();
    c.csr.mtvec = 0x8000_0010;
    c.bus.store(0x8000_0000, 4, 0x0000_0000u64).unwrap();
    c.step().unwrap();
    assert_eq!(c.csr.mcause, 2);
    assert_eq!(c.csr.mtval, 0);
    assert_eq!(c.pc, 0x8000_0010);
}

#[test]
fn step_32bit_word_still_advances_by_4() {
    let mut c = cpu();
    c.bus.store(0x8000_0000, 4, 0x02A0_0093u64).unwrap(); // addi x1, x0, 42
    c.step().unwrap();
    assert_eq!(c.pc, 0x8000_0004);
    assert_eq!(c.inst_size, 4);
    assert_eq!(c.reg(1), 42);
}

#[test]
fn deliver_trap_interrupt_uses_mideleg_not_medeleg() {
    let mut c = cpu();
    c.csr.stvec = 0x8000_0200;
    c.csr.mtvec = 0x8000_0100;
    c.csr.mideleg = 1 << 7;
    c.csr.medeleg = 0;
    c.mode = PrivMode::S;
    c.deliver_trap((1u64 << 63) | 7, 0);
    assert_eq!(c.mode, PrivMode::S);
    assert_eq!(c.csr.scause, (1u64 << 63) | 7);
    assert_eq!(c.csr.mcause, 0);
}

#[test]
fn deliver_trap_m_mode_not_delegated_even_if_medeleg_set() {
    let mut c = cpu();
    c.csr.mtvec = 0x8000_0100;
    c.csr.medeleg = 1 << 11;
    c.mode = PrivMode::M;
    c.deliver_trap(11, 0);
    assert_eq!(c.csr.mcause, 11);
    assert_eq!(c.pc, 0x8000_0100);
    assert_eq!(c.mode, PrivMode::M);
}

#[test]
fn deliver_trap_routes_to_m_when_no_delegation() {
    let mut c = cpu();
    c.csr.mtvec = 0x8000_0100;
    c.csr.medeleg = 0;
    c.deliver_trap(8, 0);
    assert_eq!(c.csr.mcause, 8);
    assert_eq!(c.pc, 0x8000_0100);
    assert_eq!(c.mode, PrivMode::M);
}

#[test]
fn deliver_trap_routes_to_s_when_delegated() {
    let mut c = cpu();
    c.csr.stvec = 0x8000_0200;
    c.csr.mtvec = 0x8000_0100;
    c.csr.medeleg = 1 << 8;
    c.mode = PrivMode::U;
    c.deliver_trap(8, 0xABCD);
    assert_eq!(c.csr.scause, 8);
    assert_eq!(c.csr.stval, 0xABCD);
    assert_eq!(c.pc, 0x8000_0200);
    assert_eq!(c.mode, PrivMode::S);
    assert_eq!(c.csr.mcause, 0);
}

#[test]
fn deliver_trap_vectored_mode_exception_uses_base() {
    let mut c = cpu();
    c.csr.mtvec = 0x8000_0001;
    c.deliver_trap(8, 0);
    assert_eq!(c.pc, 0x8000_0000);
}

#[test]
fn deliver_trap_vectored_mode_interrupt() {
    let mut c = cpu();
    c.csr.mtvec = 0x8000_0001;
    c.deliver_trap((1u64 << 63) | 7, 0);
    assert_eq!(c.pc, 0x8000_001C);
    assert_eq!(c.csr.mcause, (1u64 << 63) | 7);
}

#[test]
fn wfi_advances_pc_and_does_not_trap() {
    let mut c = Cpu::new(Bus::new(64, 0x8000_0000), 0x8000_0000, false);
    c.csr.mtvec = 0x8000_0100;
    c.bus.store(0x8000_0000, 4, 0x10500073u64).unwrap();
    c.step().unwrap();
    assert_eq!(c.pc, 0x8000_0004);
    assert_eq!(c.csr.mcause, 0);
}

#[test]
fn satp_write_sets_jit_invalidate() {
    let mut c = cpu();
    c.jit_invalidate = false;
    execute(&mut c, Instruction::Csrrw { rd: 0, rs1: 1, csr: 0x180 }).unwrap();
    assert!(c.jit_invalidate, "writing satp must set jit_invalidate");
}

#[test]
fn step_rvc_at_page_boundary_succeeds() {
    // A compressed NOP in the last two bytes of a 4 KiB page.
    let mut c = Cpu::new(Bus::new(0x2000, 0x8000_0000), 0x8000_0FFE, false);
    c.csr.mtvec = 0x8000_0010;
    c.bus.store(0x8000_0FFE, 2, 0x0001u64).unwrap();
    c.step().unwrap();
    assert_eq!(c.pc, 0x8000_1000);
    assert_eq!(c.csr.mcause, 0);
}
