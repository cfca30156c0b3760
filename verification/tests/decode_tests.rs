use riscv_emu::cpu::decode::{decode, decode_rvc, IllegalInstruction, Instruction};

#[test]
fn decodes_addi() {
    assert_eq!(decode(0x02A0_0093).unwrap(), Instruction::Addi { rd: 1, rs1: 0, imm: 42 });
}

#[test]
fn decodes_lui_with_shifted_immediate() {
    assert_eq!(decode(0x1234_52B7).unwrap(), Instruction::Lui { rd: 5, imm: 0x1234_5000 });
}

#[test]
fn decodes_negative_branch_offset() {
    assert_eq!(decode(0xFE20_8EE3).unwrap(), Instruction::Beq { rs1: 1, rs2: 2, imm: -4 });
}

#[test]
fn decodes_negative_jal_offset() {
    assert_eq!(decode(0xFF9F_F0EF).unwrap(), Instruction::Jal { rd: 1, imm: -8 });
}

#[test]
fn decodes_ld_with_negative_offset() {
    assert_eq!(decode(0xFFF1_3283).unwrap(), Instruction::Ld { rd: 5, rs1: 2, imm: -1 });
}

#[test]
fn decodes_csrrw() {
    assert_eq!(decode(0x3051_10F3).unwrap(), Instruction::Csrrw { rd: 1, rs1: 2, csr: 0x305 });
}

#[test]
fn decodes_amoadd_d() {
    assert_eq!(decode(0x0020_B1AF).unwrap(), Instruction::AmoaddD { rd: 3, rs1: 1, rs2: 2 });
}

#[test]
fn decodes_slli_with_six_bit_shamt() {
    assert_eq!(decode(0x03F0_9093).unwrap(), Instruction::Slli { rd: 1, rs1: 1, shamt: 63 });
}

#[test]
fn decodes_subw() {
    assert_eq!(decode(0x4031_00BB).unwrap(), Instruction::Subw { rd: 1, rs1: 2, rs2: 3 });
}

#[test]
fn decodes_system_instructions() {
    assert_eq!(decode(0x0000_0073).unwrap(), Instruction::Ecall);
    assert_eq!(decode(0x0010_0073).unwrap(), Instruction::Ebreak);
    assert_eq!(decode(0x3020_0073).unwrap(), Instruction::Mret);
    assert_eq!(decode(0x1020_0073).unwrap(), Instruction::Sret);
    assert_eq!(decode(0x1050_0073).unwrap(), Instruction::Wfi);
    assert_eq!(decode(0x1200_0073).unwrap(), Instruction::SfenceVma);
    assert_eq!(decode(0x0000_000F).unwrap(), Instruction::Fence);
}

#[test]
fn rejects_illegal_words() {
    assert_eq!(decode(0xDEAD_BEFF).unwrap_err().raw, 0xDEAD_BEFF);
    assert!(decode(0).is_err());
    // an OP-V word: the vector extension is not implemented
    assert!(decode(0x0000_0057).is_err());
}

#[test]
fn rvc_nop_addi_li() {
    assert_eq!(decode_rvc(0x0001).unwrap(), Instruction::Addi { rd: 0, rs1: 0, imm: 0 });
    assert_eq!(decode_rvc(0x0085).unwrap(), Instruction::Addi { rd: 1, rs1: 1, imm: 1 });
    assert_eq!(decode_rvc(0x50FD).unwrap(), Instruction::Addi { rd: 1, rs1: 0, imm: -1 });
}

#[test]
fn rvc_moves_adds_and_jumps() {
    assert_eq!(decode_rvc(0x808A).unwrap(), Instruction::Add { rd: 1, rs1: 0, rs2: 2 });
    assert_eq!(decode_rvc(0x908A).unwrap(), Instruction::Add { rd: 1, rs1: 1, rs2: 2 });
    assert_eq!(decode_rvc(0x8082).unwrap(), Instruction::Jalr { rd: 0, rs1: 1, imm: 0 });
    assert_eq!(decode_rvc(0x9282).unwrap(), Instruction::Jalr { rd: 1, rs1: 5, imm: 0 });
    assert_eq!(decode_rvc(0x9002).unwrap(), Instruction::Ebreak);
    assert_eq!(decode_rvc(0xC011).unwrap(), Instruction::Beq { rs1: 8, rs2: 0, imm: 4 });
}

#[test]
fn rvc_stack_pointer_forms() {
    assert_eq!(decode_rvc(0x60A2).unwrap(), Instruction::Ld { rd: 1, rs1: 2, imm: 8 });
    assert_eq!(decode_rvc(0xE406).unwrap(), Instruction::Sd { rs1: 2, rs2: 1, imm: 8 });
    assert_eq!(decode_rvc(0x0800).unwrap(), Instruction::Addi { rd: 8, rs1: 2, imm: 16 });
    assert_eq!(decode_rvc(0x717D).unwrap(), Instruction::Addi { rd: 2, rs1: 2, imm: -16 });
    assert_eq!(decode_rvc(0x4044).unwrap(), Instruction::Lw { rd: 9, rs1: 8, imm: 4 });
}

#[test]
fn rvc_lui_and_register_arithmetic() {
    assert_eq!(decode_rvc(0x6085).unwrap(), Instruction::Lui { rd: 1, imm: 4096 });
    assert_eq!(decode_rvc(0x8C05).unwrap(), Instruction::Sub { rd: 8, rs1: 8, rs2: 9 });
    assert_eq!(decode_rvc(0x9C25).unwrap(), Instruction::Addw { rd: 8, rs1: 8, rs2: 9 });
}

#[test]
fn rvc_reserved_encodings_are_illegal() {
    assert_eq!(decode_rvc(0x0000).unwrap_err(), IllegalInstruction { raw: 0 });
    assert_eq!(decode_rvc(0x9C45).unwrap_err(), IllegalInstruction { raw: 0x9C45 });
    assert!(decode_rvc(0x0003).is_err());
}

#[test]
fn decode_add() {
    assert_eq!(decode(0x00208133).unwrap(), Instruction::Add { rd: 2, rs1: 1, rs2: 2 });
}

#[test]
fn decode_addi() {
    assert_eq!(decode(0x02a00093).unwrap(), Instruction::Addi { rd: 1, rs1: 0, imm: 42 });
}

#[test]
fn decode_addiw() {
    assert_eq!(decode(0xfff0809b).unwrap(), Instruction::Addiw { rd: 1, rs1: 1, imm: -1 });
}

#[test]
fn decode_amoaddd() {
    assert_eq!(decode(0x0020B1AF).unwrap(), Instruction::AmoaddD { rd: 3, rs1: 1, rs2: 2 });
}

#[test]
fn decode_beq() {
    assert_eq!(decode(0x00208463).unwrap(), Instruction::Beq { rs1: 1, rs2: 2, imm: 8 });
}

#[test]
fn decode_div() {
    assert_eq!(decode(0x0220C1B3).unwrap(), Instruction::Div { rd: 3, rs1: 1, rs2: 2 });
}

#[test]
fn decode_jal() {
    assert_eq!(decode(0x004000ef).unwrap(), Instruction::Jal { rd: 1, imm: 4 });
}

#[test]
fn decode_lrd() {
    assert_eq!(decode(0x1000B1AF).unwrap(), Instruction::LrD { rd: 3, rs1: 1 });
}

#[test]
fn decode_lui() {
    assert_eq!(decode(0x123450b7).unwrap(), Instruction::Lui { rd: 1, imm: 0x12345000 });
}

#[test]
fn decode_lw() {
    assert_eq!(decode(0x00812283).unwrap(), Instruction::Lw { rd: 5, rs1: 2, imm: 8 });
}

#[test]
fn decode_mul() {
    assert_eq!(decode(0x022081B3).unwrap(), Instruction::Mul { rd: 3, rs1: 1, rs2: 2 });
}

#[test]
fn decode_mulw() {
    assert_eq!(decode(0x022081BB).unwrap(), Instruction::Mulw { rd: 3, rs1: 1, rs2: 2 });
}

#[test]
fn decode_scd() {
    assert_eq!(decode(0x1820B1AF).unwrap(), Instruction::ScD { rd: 3, rs1: 1, rs2: 2 });
}

#[test]
fn decode_srai() {
    assert_eq!(decode(0x4030D093).unwrap(), Instruction::Srai { rd: 1, rs1: 1, shamt: 3 });
}

#[test]
fn decode_sw() {
    assert_eq!(decode(0xfe512e23).unwrap(), Instruction::Sw { rs1: 2, rs2: 5, imm: -4 });
}

#[test]
fn illegal_instruction_carries_raw_bits() {
    let err = decode(0xFFFF_FFFF).unwrap_err();
    assert_eq!(err.raw, 0xFFFF_FFFF);
}

#[test]
fn fence_i_is_told_apart_from_fence() {
    // fence rw,rw and fence.i
    assert_eq!(decode(0x0330_000F).unwrap(), Instruction::Fence);
    assert_eq!(decode(0x0000_100F).unwrap(), Instruction::FenceI);
}
