use riscv_emu::bus::Bus;
use riscv_emu::cpu::Cpu;
use riscv_emu::jit::{jit_load16, jit_load32, jit_load64, jit_load8, jit_store16, jit_store32, jit_store64, jit_store8, plan_block, BlockEnd, JitCache, MAX_BLOCK_INSTS};

fn make_cpu() -> Cpu {
    Cpu::new(Bus::new(4096, 0x8000_0000), 0x8000_0000, false)
}

#[test]
fn callout_store_then_load_roundtrip() {
    let mut cpu = make_cpu();
    cpu.regs[1] = 0xDEAD_BEEF_0000_0001;
    let addr = 0x8000_0010u64;
    let v = cpu.regs[1];
    let store_result = jit_store64(&mut cpu, addr, v);
    assert_eq!(store_result, 0, "store64 should return 0 on success");
    let loaded = jit_load64(&mut cpu, addr);
    assert_eq!(loaded, 0xDEAD_BEEF_0000_0001);
}

#[test]
fn callout_load_fault_returns_sentinel() {
    let mut cpu = make_cpu();
    let result = jit_load64(&mut cpu, 0x0000_0000);
    assert_eq!(result, u64::MAX);
}

#[test]
fn callout_store_fault_returns_sentinel() {
    let mut cpu = make_cpu();
    let result = jit_store64(&mut cpu, 0x0000_0000, 42);
    assert_eq!(result, u64::MAX);
}

#[test]
fn narrow_callouts_truncate_and_zero_extend() {
    let mut cpu = make_cpu();
    assert_eq!(jit_store64(&mut cpu, 0x8000_0100, u64::MAX), 0);
    assert_eq!(jit_store8(&mut cpu, 0x8000_0100, 0x1234), 0);
    assert_eq!(jit_store16(&mut cpu, 0x8000_0102, 0xABCD_5678), 0);
    assert_eq!(jit_store32(&mut cpu, 0x8000_0104, 0x1_0000_0001), 0);
    assert_eq!(jit_load8(&mut cpu, 0x8000_0100), 0x34);
    assert_eq!(jit_load16(&mut cpu, 0x8000_0102), 0x5678);
    assert_eq!(jit_load32(&mut cpu, 0x8000_0104), 1);
    assert_eq!(jit_load64(&mut cpu, 0x8000_0100), 0x0000_0001_5678_FF34);
}

#[test]
fn callout_past_ram_end_faults() {
    let mut cpu = make_cpu();
    assert_eq!(jit_load32(&mut cpu, 0x8000_0FFE), u64::MAX);
    assert_eq!(jit_store16(&mut cpu, 0x8000_0FFF, 1), u64::MAX);
    assert_eq!(jit_load16(&mut cpu, 0x8000_0FFE), 0);
}

#[test]
fn jit_cache_new_is_empty() {
    let jit: JitCache<u32> = JitCache::new();
    assert!(jit.get(0x8000_0000).is_none());
    assert_eq!(jit.len(), 0);
}

#[test]
fn jit_cache_invalidate_clears_all() {
    let mut jit: JitCache<u32> = JitCache::new();
    jit.insert(0x8000_0000, 42);
    assert!(jit.get(0x8000_0000).is_some());
    jit.invalidate();
    assert!(jit.get(0x8000_0000).is_none());
}

#[test]
fn jit_cache_insert_replaces_and_counts() {
    let mut jit: JitCache<u32> = JitCache::new();
    jit.insert(0x8000_0000, 1);
    jit.insert(0x8000_0010, 2);
    jit.insert(0x8000_0000, 3);
    assert_eq!(jit.get(0x8000_0000), Some(&3));
    assert!(jit.contains(0x8000_0010));
    assert!(!jit.contains(0x8000_0020));
    assert_eq!(jit.len(), 2);
}

#[test]
fn callouts_translate_with_the_mprv_privilege() {
    let mut cpu = make_cpu();
    assert_eq!(jit_store64(&mut cpu, 0x8000_0800, 0x1234), 0);
    // Sv39 with an empty root table: any translated access faults.
    cpu.csr.satp = (8u64 << 60) | (0x8000_0000u64 >> 12);
    // Machine mode ignores satp ...
    assert_eq!(jit_load64(&mut cpu, 0x8000_0800), 0x1234);
    // ... but with MPRV set and MPP = S, loads and stores are translated.
    cpu.csr.mstatus = (1u64 << 17) | (1u64 << 11);
    assert_eq!(jit_load64(&mut cpu, 0x8000_0800), u64::MAX);
    assert_eq!(jit_store64(&mut cpu, 0x8000_0800, 7), u64::MAX);
    cpu.csr.mstatus = 0;
    assert_eq!(jit_load64(&mut cpu, 0x8000_0800), 0x1234);
}

fn cpu_with_code(words: &[u32]) -> Cpu {
    let mut cpu = Cpu::new(Bus::new(4096, 0x8000_0000), 0x8000_0000, false);
    for (i, w) in words.iter().enumerate() {
        cpu.bus.store(0x8000_0000 + 4 * i as u64, 4, *w as u64).unwrap();
    }
    cpu
}

#[test]
fn block_plan_ends_at_a_branch() {
    // addi x1, x0, 5; add x2, x1, x1; beq x0, x0, 8
    let mut cpu = cpu_with_code(&[0x0050_0093, 0x0010_8133, 0x0000_0463]);
    let plan = plan_block(&mut cpu, 0x8000_0000).unwrap();
    assert_eq!(plan.insts.len(), 3);
    assert_eq!(plan.insts[2].pc, 0x8000_0008);
    assert!(matches!(plan.end, BlockEnd::Ends));
}

#[test]
fn block_plan_stops_before_an_interpreted_instruction() {
    // addi x1, x0, 5; csrrw x0, mscratch, x1
    let mut cpu = cpu_with_code(&[0x0050_0093, 0x3400_9073]);
    let plan = plan_block(&mut cpu, 0x8000_0000).unwrap();
    assert_eq!(plan.insts.len(), 1);
    assert!(matches!(plan.end, BlockEnd::Exit));
    assert_eq!(plan.exit_pc, 0x8000_0004);
    // a block that starts at such an instruction is empty
    let plan = plan_block(&mut cpu, 0x8000_0004).unwrap();
    assert!(plan.insts.is_empty());
    // nothing to fetch outside RAM
    assert!(plan_block(&mut cpu, 0x1000).is_none());
}

#[test]
fn block_plan_takes_at_most_64_instructions() {
    // c.nop c.nop (one word), then 4-byte nops
    let mut words = vec![0x0001_0001u32];
    words.extend(std::iter::repeat(0x0000_0013u32).take(200));
    let mut cpu = cpu_with_code(&words);
    let plan = plan_block(&mut cpu, 0x8000_0000).unwrap();
    assert_eq!(plan.insts.len(), 64);
    assert!(plan.insts[0].compressed && plan.insts[1].compressed && !plan.insts[2].compressed);
    assert!(matches!(plan.end, BlockEnd::Limit));
    assert_eq!(plan.exit_pc, 0x8000_0000 + 4 + 62 * 4);
    assert_eq!(MAX_BLOCK_INSTS, 64);
}

#[test]
fn block_of_addis_falls_through_after_64() {
    // 200 copies of addi x1, x1, 1
    let mut cpu = cpu_with_code(&[0x0010_8093u32; 200]);
    let plan = plan_block(&mut cpu, 0x8000_0000).unwrap();
    assert_eq!(plan.insts.len(), 64);
    assert!(matches!(plan.end, BlockEnd::Limit));
    assert_eq!(plan.exit_pc, 0x8000_0000 + 64 * 4);
}

#[test]
fn fences_end_a_block_and_mulhsu_is_compiled() {
    // mulhsu x3, x1, x2; fence; addi
    let mut cpu = cpu_with_code(&[0x0220_a1b3, 0x0ff0_000f, 0x0050_0093]);
    let plan = plan_block(&mut cpu, 0x8000_0000).unwrap();
    assert_eq!(plan.insts.len(), 1);
    assert!(matches!(plan.end, BlockEnd::Exit));
    assert_eq!(plan.exit_pc, 0x8000_0004);
    // fence.i is left to the interpreter as well
    let mut cpu = cpu_with_code(&[0x0050_0093, 0x0000_100f]);
    let plan = plan_block(&mut cpu, 0x8000_0000).unwrap();
    assert_eq!(plan.insts.len(), 1);
    assert!(matches!(plan.end, BlockEnd::Exit));
    assert_eq!(plan.exit_pc, 0x8000_0004);
}
