use riscv_emu::bus::Bus;
use riscv_emu::cpu::decode::{decode, Instruction};
use riscv_emu::cpu::execute::{complete_fpu, execute};
use riscv_emu::cpu::Cpu;

fn cpu() -> Cpu {
    Cpu::new(Bus::new(256, 0x8000_0000), 0x8000_0000, false)
}

#[test]
fn decodes_fp_instructions() {
    assert_eq!(decode(0x0231_70D3).unwrap(), Instruction::FaddD { rd: 1, rs1: 2, rs2: 3, rm: 7 });
    assert_eq!(decode(0xE000_82D3).unwrap(), Instruction::FmvXW { rd: 5, rs1: 1 });
    assert_eq!(decode(0xF203_0253).unwrap(), Instruction::FmvDX { rd: 4, rs1: 6 });
    assert_eq!(decode(0xE001_9153).unwrap(), Instruction::FclassS { rd: 2, rs1: 3 });
    assert_eq!(decode(0xC201_10D3).unwrap(), Instruction::FcvtWD { rd: 1, rs1: 2, rm: 1 });
    assert_eq!(decode(0xA020_A1D3).unwrap(), Instruction::FeqS { rd: 3, rs1: 1, rs2: 2 });
    assert_eq!(decode(0x0081_2087).unwrap(), Instruction::Flw { fd: 1, rs1: 2, imm: 8 });
    assert_eq!(decode(0x0031_3827).unwrap(), Instruction::Fsd { rs1: 2, fs2: 3, imm: 16 });
    assert_eq!(decode(0x2231_00C3).unwrap(), Instruction::FmaddD { rd: 1, rs1: 2, rs2: 3, rs3: 4, rm: 0 });
    assert!(decode(0x5810_80D3).is_err());
    assert!(decode(0x0431_00D3).is_err());
}

#[test]
fn flw_nan_boxes_and_fsd_fld_round_trip() {
    let mut c = cpu();
    c.bus.store(0x8000_0040, 8, 0x1122_3344_5566_7788).unwrap();
    c.set_reg(2, 0x8000_0040);
    execute(&mut c, Instruction::Flw { fd: 1, rs1: 2, imm: 0 }).unwrap();
    assert_eq!(c.fregs[1], 0xFFFF_FFFF_5566_7788);
    execute(&mut c, Instruction::Fld { fd: 3, rs1: 2, imm: 0 }).unwrap();
    assert_eq!(c.fregs[3], 0x1122_3344_5566_7788);
    execute(&mut c, Instruction::Fsd { rs1: 2, fs2: 1, imm: 8 }).unwrap();
    assert_eq!(c.bus.load(0x8000_0048, 8).unwrap(), 0xFFFF_FFFF_5566_7788);
    execute(&mut c, Instruction::Fsw { rs1: 2, fs2: 3, imm: 16 }).unwrap();
    assert_eq!(c.bus.load(0x8000_0050, 8).unwrap(), 0x5566_7788);
    assert_eq!(c.pc, 0x8000_0010);
}

#[test]
fn fmv_moves_bits() {
    let mut c = cpu();
    c.set_reg(6, 0x8000_0001);
    execute(&mut c, Instruction::FmvWX { rd: 1, rs1: 6 }).unwrap();
    assert_eq!(c.fregs[1], 0xFFFF_FFFF_8000_0001);
    execute(&mut c, Instruction::FmvXW { rd: 5, rs1: 1 }).unwrap();
    assert_eq!(c.reg(5), 0xFFFF_FFFF_8000_0001);
    c.set_reg(7, 0x4009_21FB_5444_2D18);
    execute(&mut c, Instruction::FmvDX { rd: 2, rs1: 7 }).unwrap();
    execute(&mut c, Instruction::FmvXD { rd: 8, rs1: 2 }).unwrap();
    assert_eq!(c.reg(8), 0x4009_21FB_5444_2D18);
}

#[test]
fn fclass_reports_the_class() {
    let mut c = cpu();
    c.fregs[1] = 0xFFFF_FFFF_3F80_0000; // 1.0f
    c.fregs[2] = 0x3F80_0000; // not NaN-boxed: reads as the canonical NaN
    c.fregs[3] = 0xFFF0_0000_0000_0000; // -inf
    execute(&mut c, Instruction::FclassS { rd: 4, rs1: 1 }).unwrap();
    execute(&mut c, Instruction::FclassS { rd: 5, rs1: 2 }).unwrap();
    execute(&mut c, Instruction::FclassD { rd: 6, rs1: 3 }).unwrap();
    assert_eq!(c.reg(4), 1 << 6);
    assert_eq!(c.reg(5), 1 << 9);
    assert_eq!(c.reg(6), 1 << 0);
}

#[test]
fn sign_injection() {
    let mut c = cpu();
    c.fregs[1] = 0x3FF0_0000_0000_0000; // 1.0
    c.fregs[2] = 0xC000_0000_0000_0000; // -2.0
    execute(&mut c, Instruction::FsgnjD { rd: 3, rs1: 1, rs2: 2 }).unwrap();
    execute(&mut c, Instruction::FsgnjnD { rd: 4, rs1: 1, rs2: 2 }).unwrap();
    execute(&mut c, Instruction::FsgnjxD { rd: 5, rs1: 2, rs2: 2 }).unwrap();
    assert_eq!(c.fregs[3], 0xBFF0_0000_0000_0000);
    assert_eq!(c.fregs[4], 0x3FF0_0000_0000_0000);
    assert_eq!(c.fregs[5], 0x4000_0000_0000_0000);
    c.fregs[6] = 0xFFFF_FFFF_3F80_0000;
    c.fregs[7] = 0xFFFF_FFFF_C000_0000;
    execute(&mut c, Instruction::FsgnjS { rd: 8, rs1: 6, rs2: 7 }).unwrap();
    assert_eq!(c.fregs[8], 0xFFFF_FFFF_BF80_0000);
}

#[test]
fn float_arithmetic_is_left_to_the_caller() {
    let mut c = cpu();
    let inst = Instruction::FaddD { rd: 1, rs1: 2, rs2: 3, rm: 0 };
    let e = execute(&mut c, inst).unwrap_err();
    assert_eq!(e.inst, inst);
    assert_eq!(e.pc, 0x8000_0000);
    assert_eq!(c.pc, 0x8000_0000);
    complete_fpu(&mut c, inst, 0x4008_0000_0000_0000);
    assert_eq!(c.fregs[1], 0x4008_0000_0000_0000);
    assert_eq!(c.pc, 0x8000_0004);
    let cmp = Instruction::FltD { rd: 9, rs1: 1, rs2: 2 };
    complete_fpu(&mut c, cmp, 1);
    assert_eq!(c.reg(9), 1);
}

#[test]
fn step_reports_fp_arithmetic() {
    let mut c = cpu();
    c.bus.store(0x8000_0000, 4, 0x0231_70D3).unwrap();
    let e = c.step().unwrap_err();
    assert_eq!(e.inst, Instruction::FaddD { rd: 1, rs1: 2, rs2: 3, rm: 7 });
    assert_eq!(c.pc, 0x8000_0000);
}
