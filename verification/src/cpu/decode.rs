use vstd::prelude::*;
use crate::rvc::{sign_ext, sign_ext_spec, rvc_j_field, rvc_b_field, rvc_j_imm, rvc_b_imm};

verus! {

/// RV64IMAFD + Zicsr + privileged instructions. Fields are pre-decoded and
/// sign-extended: immediates are i64, shift amounts u32 (6-bit for 64-bit ops,
/// 5-bit for *W ops), register indices usize (< 32), CSR addresses u16 (< 4096).
#[derive(Debug, Clone, Copy, PartialEq, Eq, Structural)]
pub enum Instruction {
    // --- R-type (opcode 0x33) ---
    Add { rd: usize, rs1: usize, rs2: usize },
    Sub { rd: usize, rs1: usize, rs2: usize },
    Sll { rd: usize, rs1: usize, rs2: usize },
    Slt { rd: usize, rs1: usize, rs2: usize },
    Sltu { rd: usize, rs1: usize, rs2: usize },
    Xor { rd: usize, rs1: usize, rs2: usize },
    Srl { rd: usize, rs1: usize, rs2: usize },
    Sra { rd: usize, rs1: usize, rs2: usize },
    Or { rd: usize, rs1: usize, rs2: usize },
    And { rd: usize, rs1: usize, rs2: usize },
    // --- W-variants R-type (opcode 0x3B) ---
    Addw { rd: usize, rs1: usize, rs2: usize },
    Subw { rd: usize, rs1: usize, rs2: usize },
    Sllw { rd: usize, rs1: usize, rs2: usize },
    Srlw { rd: usize, rs1: usize, rs2: usize },
    Sraw { rd: usize, rs1: usize, rs2: usize },
    // --- I-type arithmetic (opcode 0x13) ---
    Addi { rd: usize, rs1: usize, imm: i64 },
    Slti { rd: usize, rs1: usize, imm: i64 },
    Sltiu { rd: usize, rs1: usize, imm: i64 },
    Xori { rd: usize, rs1: usize, imm: i64 },
    Ori { rd: usize, rs1: usize, imm: i64 },
    Andi { rd: usize, rs1: usize, imm: i64 },
    Slli { rd: usize, rs1: usize, shamt: u32 },
    Srli { rd: usize, rs1: usize, shamt: u32 },
    Srai { rd: usize, rs1: usize, shamt: u32 },
    // --- IW-variants (opcode 0x1B) ---
    Addiw { rd: usize, rs1: usize, imm: i64 },
    Slliw { rd: usize, rs1: usize, shamt: u32 },
    Srliw { rd: usize, rs1: usize, shamt: u32 },
    Sraiw { rd: usize, rs1: usize, shamt: u32 },
    // --- Loads (opcode 0x03) ---
    Lb { rd: usize, rs1: usize, imm: i64 },
    Lh { rd: usize, rs1: usize, imm: i64 },
    Lw { rd: usize, rs1: usize, imm: i64 },
    Ld { rd: usize, rs1: usize, imm: i64 },
    Lbu { rd: usize, rs1: usize, imm: i64 },
    Lhu { rd: usize, rs1: usize, imm: i64 },
    Lwu { rd: usize, rs1: usize, imm: i64 },
    // --- Stores (opcode 0x23) ---
    Sb { rs1: usize, rs2: usize, imm: i64 },
    Sh { rs1: usize, rs2: usize, imm: i64 },
    Sw { rs1: usize, rs2: usize, imm: i64 },
    Sd { rs1: usize, rs2: usize, imm: i64 },
    // --- Branches (opcode 0x63) ---
    Beq { rs1: usize, rs2: usize, imm: i64 },
    Bne { rs1: usize, rs2: usize, imm: i64 },
    Blt { rs1: usize, rs2: usize, imm: i64 },
    Bge { rs1: usize, rs2: usize, imm: i64 },
    Bltu { rs1: usize, rs2: usize, imm: i64 },
    Bgeu { rs1: usize, rs2: usize, imm: i64 },
    // --- Jumps ---
    Jal { rd: usize, imm: i64 },
    Jalr { rd: usize, rs1: usize, imm: i64 },
    // --- Upper immediate ---
    Lui { rd: usize, imm: i64 },
    Auipc { rd: usize, imm: i64 },
    // --- System ---
    Fence,
    /// FENCE.I: instruction fetches after it see earlier stores to code.
    FenceI,
    Ecall,
    Ebreak,
    Mret,
    Sret,
    Wfi,
    SfenceVma,
    // --- Zicsr (opcode 0x73, funct3 != 0) ---
    Csrrw { rd: usize, rs1: usize, csr: u16 },
    Csrrs { rd: usize, rs1: usize, csr: u16 },
    Csrrc { rd: usize, rs1: usize, csr: u16 },
    Csrrwi { rd: usize, uimm: u32, csr: u16 },
    Csrrsi { rd: usize, uimm: u32, csr: u16 },
    Csrrci { rd: usize, uimm: u32, csr: u16 },
    // --- M extension (funct7 = 1 under opcodes 0x33 / 0x3B) ---
    Mul { rd: usize, rs1: usize, rs2: usize },
    Mulh { rd: usize, rs1: usize, rs2: usize },
    Mulhsu { rd: usize, rs1: usize, rs2: usize },
    Mulhu { rd: usize, rs1: usize, rs2: usize },
    Div { rd: usize, rs1: usize, rs2: usize },
    Divu { rd: usize, rs1: usize, rs2: usize },
    Rem { rd: usize, rs1: usize, rs2: usize },
    Remu { rd: usize, rs1: usize, rs2: usize },
    Mulw { rd: usize, rs1: usize, rs2: usize },
    Divw { rd: usize, rs1: usize, rs2: usize },
    Divuw { rd: usize, rs1: usize, rs2: usize },
    Remw { rd: usize, rs1: usize, rs2: usize },
    Remuw { rd: usize, rs1: usize, rs2: usize },
    // --- A extension (opcode 0x2F) ---
    LrD { rd: usize, rs1: usize },
    LrW { rd: usize, rs1: usize },
    ScD { rd: usize, rs1: usize, rs2: usize },
    ScW { rd: usize, rs1: usize, rs2: usize },
    AmoswapD { rd: usize, rs1: usize, rs2: usize },
    AmoswapW { rd: usize, rs1: usize, rs2: usize },
    AmoaddD { rd: usize, rs1: usize, rs2: usize },
    AmoaddW { rd: usize, rs1: usize, rs2: usize },
    AmoxorD { rd: usize, rs1: usize, rs2: usize },
    AmoxorW { rd: usize, rs1: usize, rs2: usize },
    AmoandD { rd: usize, rs1: usize, rs2: usize },
    AmoandW { rd: usize, rs1: usize, rs2: usize },
    AmoorD { rd: usize, rs1: usize, rs2: usize },
    AmoorW { rd: usize, rs1: usize, rs2: usize },
    AmominD { rd: usize, rs1: usize, rs2: usize },
    AmominW { rd: usize, rs1: usize, rs2: usize },
    AmomaxD { rd: usize, rs1: usize, rs2: usize },
    AmomaxW { rd: usize, rs1: usize, rs2: usize },
    AmominuD { rd: usize, rs1: usize, rs2: usize },
    AmominuW { rd: usize, rs1: usize, rs2: usize },
    AmomaxuD { rd: usize, rs1: usize, rs2: usize },
    AmomaxuW { rd: usize, rs1: usize, rs2: usize },
    // --- F/D loads and stores (opcodes 0x07 / 0x27) ---
    Flw { fd: usize, rs1: usize, imm: i64 },
    Fld { fd: usize, rs1: usize, imm: i64 },
    Fsw { rs1: usize, fs2: usize, imm: i64 },
    Fsd { rs1: usize, fs2: usize, imm: i64 },
    // --- F/D register moves, classification, sign injection (OP-FP 0x53) ---
    FmvXW { rd: usize, rs1: usize },
    FmvXD { rd: usize, rs1: usize },
    FmvWX { rd: usize, rs1: usize },
    FmvDX { rd: usize, rs1: usize },
    FclassS { rd: usize, rs1: usize },
    FclassD { rd: usize, rs1: usize },
    FsgnjS { rd: usize, rs1: usize, rs2: usize },
    FsgnjnS { rd: usize, rs1: usize, rs2: usize },
    FsgnjxS { rd: usize, rs1: usize, rs2: usize },
    FsgnjD { rd: usize, rs1: usize, rs2: usize },
    FsgnjnD { rd: usize, rs1: usize, rs2: usize },
    FsgnjxD { rd: usize, rs1: usize, rs2: usize },
    // --- F/D arithmetic (OP-FP 0x53); `rm` is the rounding-mode field ---
    FminS { rd: usize, rs1: usize, rs2: usize },
    FmaxS { rd: usize, rs1: usize, rs2: usize },
    FminD { rd: usize, rs1: usize, rs2: usize },
    FmaxD { rd: usize, rs1: usize, rs2: usize },
    FleS { rd: usize, rs1: usize, rs2: usize },
    FltS { rd: usize, rs1: usize, rs2: usize },
    FeqS { rd: usize, rs1: usize, rs2: usize },
    FleD { rd: usize, rs1: usize, rs2: usize },
    FltD { rd: usize, rs1: usize, rs2: usize },
    FeqD { rd: usize, rs1: usize, rs2: usize },
    FaddS { rd: usize, rs1: usize, rs2: usize, rm: u32 },
    FsubS { rd: usize, rs1: usize, rs2: usize, rm: u32 },
    FmulS { rd: usize, rs1: usize, rs2: usize, rm: u32 },
    FdivS { rd: usize, rs1: usize, rs2: usize, rm: u32 },
    FsqrtS { rd: usize, rs1: usize, rm: u32 },
    FaddD { rd: usize, rs1: usize, rs2: usize, rm: u32 },
    FsubD { rd: usize, rs1: usize, rs2: usize, rm: u32 },
    FmulD { rd: usize, rs1: usize, rs2: usize, rm: u32 },
    FdivD { rd: usize, rs1: usize, rs2: usize, rm: u32 },
    FsqrtD { rd: usize, rs1: usize, rm: u32 },
    FcvtSD { rd: usize, rs1: usize, rm: u32 },
    FcvtDS { rd: usize, rs1: usize, rm: u32 },
    FcvtWS { rd: usize, rs1: usize, rm: u32 },
    FcvtWUS { rd: usize, rs1: usize, rm: u32 },
    FcvtLS { rd: usize, rs1: usize, rm: u32 },
    FcvtLUS { rd: usize, rs1: usize, rm: u32 },
    FcvtWD { rd: usize, rs1: usize, rm: u32 },
    FcvtWUD { rd: usize, rs1: usize, rm: u32 },
    FcvtLD { rd: usize, rs1: usize, rm: u32 },
    FcvtLUD { rd: usize, rs1: usize, rm: u32 },
    FcvtSW { rd: usize, rs1: usize, rm: u32 },
    FcvtSWU { rd: usize, rs1: usize, rm: u32 },
    FcvtSL { rd: usize, rs1: usize, rm: u32 },
    FcvtSLU { rd: usize, rs1: usize, rm: u32 },
    FcvtDW { rd: usize, rs1: usize, rm: u32 },
    FcvtDWU { rd: usize, rs1: usize, rm: u32 },
    FcvtDL { rd: usize, rs1: usize, rm: u32 },
    FcvtDLU { rd: usize, rs1: usize, rm: u32 },
    // --- Fused multiply-add (opcodes 0x43 / 0x47 / 0x4B / 0x4F) ---
    FmaddS { rd: usize, rs1: usize, rs2: usize, rs3: usize, rm: u32 },
    FmsubS { rd: usize, rs1: usize, rs2: usize, rs3: usize, rm: u32 },
    FnmsubS { rd: usize, rs1: usize, rs2: usize, rs3: usize, rm: u32 },
    FnmaddS { rd: usize, rs1: usize, rs2: usize, rs3: usize, rm: u32 },
    FmaddD { rd: usize, rs1: usize, rs2: usize, rs3: usize, rm: u32 },
    FmsubD { rd: usize, rs1: usize, rs2: usize, rs3: usize, rm: u32 },
    FnmsubD { rd: usize, rs1: usize, rs2: usize, rs3: usize, rm: u32 },
    FnmaddD { rd: usize, rs1: usize, rs2: usize, rs3: usize, rm: u32 },
}

/// An instruction word that encodes no instruction of this hart.
#[derive(Debug, Clone, Copy, PartialEq, Eq, Structural)]
pub struct IllegalInstruction {
    pub raw: u32,
}

pub open spec fn opcode(i: u32) -> u32 { i & 0x7f }
pub open spec fn funct3(i: u32) -> u32 { (i >> 12) & 0x7 }
pub open spec fn funct7(i: u32) -> u32 { (i >> 25) & 0x7f }
pub open spec fn rd_of(i: u32) -> usize { ((i >> 7) & 0x1f) as usize }
pub open spec fn rs1_of(i: u32) -> usize { ((i >> 15) & 0x1f) as usize }
pub open spec fn rs2_of(i: u32) -> usize { ((i >> 20) & 0x1f) as usize }
pub open spec fn csr_of(i: u32) -> u16 { (i >> 20) as u16 }

/// The `bits`-bit two's-complement field `raw` as a signed number.
pub open spec fn signed_field(raw: u32, bits: nat) -> i64 {
    if raw as int >= vstd::arithmetic::power2::pow2((bits - 1) as nat) {
        (raw as int - vstd::arithmetic::power2::pow2(bits)) as i64
    } else {
        raw as i64
    }
}

/// I-type immediate: inst[31:20].
pub open spec fn i_imm_spec(i: u32) -> i64 { signed_field(i >> 20, 12) }

/// S-type immediate: inst[31:25] ++ inst[11:7].
pub open spec fn s_imm_spec(i: u32) -> i64 { signed_field(((i >> 25) << 5) | ((i >> 7) & 0x1f), 12) }

/// B-type immediate: inst[31] ++ inst[7] ++ inst[30:25] ++ inst[11:8] ++ 0.
pub open spec fn b_imm_spec(i: u32) -> i64 {
    signed_field(
        ((i >> 31) << 12) | (((i >> 7) & 0x1) << 11) | (((i >> 25) & 0x3f) << 5) | (((i >> 8) & 0xf) << 1),
        13,
    )
}

/// U-type immediate: inst[31:12] ++ 12 zero bits.
pub open spec fn u_imm_spec(i: u32) -> i64 { signed_field(i & 0xFFFF_F000, 32) }

/// J-type immediate: inst[31] ++ inst[19:12] ++ inst[20] ++ inst[30:21] ++ 0.
pub open spec fn j_imm_spec(i: u32) -> i64 {
    signed_field(
        ((i >> 31) << 20) | (i & 0x000F_F000) | (((i >> 20) & 0x1) << 11) | (((i >> 21) & 0x3ff) << 1),
        21,
    )
}

/// The register-register ALU and M-extension instructions (opcode 0x33).
pub open spec fn decode_op(i: u32) -> Option<Instruction> {
    let (rd, rs1, rs2) = (rd_of(i), rs1_of(i), rs2_of(i));
    let f3 = funct3(i);
    let f7 = funct7(i);
    if f7 == 0x00 {
        if f3 == 0 { Some(Instruction::Add { rd, rs1, rs2 }) }
        else if f3 == 1 { Some(Instruction::Sll { rd, rs1, rs2 }) }
        else if f3 == 2 { Some(Instruction::Slt { rd, rs1, rs2 }) }
        else if f3 == 3 { Some(Instruction::Sltu { rd, rs1, rs2 }) }
        else if f3 == 4 { Some(Instruction::Xor { rd, rs1, rs2 }) }
        else if f3 == 5 { Some(Instruction::Srl { rd, rs1, rs2 }) }
        else if f3 == 6 { Some(Instruction::Or { rd, rs1, rs2 }) }
        else { Some(Instruction::And { rd, rs1, rs2 }) }
    } else if f7 == 0x20 {
        if f3 == 0 { Some(Instruction::Sub { rd, rs1, rs2 }) }
        else if f3 == 5 { Some(Instruction::Sra { rd, rs1, rs2 }) }
        else { None }
    } else if f7 == 0x01 {
        if f3 == 0 { Some(Instruction::Mul { rd, rs1, rs2 }) }
        else if f3 == 1 { Some(Instruction::Mulh { rd, rs1, rs2 }) }
        else if f3 == 2 { Some(Instruction::Mulhsu { rd, rs1, rs2 }) }
        else if f3 == 3 { Some(Instruction::Mulhu { rd, rs1, rs2 }) }
        else if f3 == 4 { Some(Instruction::Div { rd, rs1, rs2 }) }
        else if f3 == 5 { Some(Instruction::Divu { rd, rs1, rs2 }) }
        else if f3 == 6 { Some(Instruction::Rem { rd, rs1, rs2 }) }
        else { Some(Instruction::Remu { rd, rs1, rs2 }) }
    } else {
        None
    }
}

/// The 32-bit register-register instructions (opcode 0x3B).
pub open spec fn decode_op32(i: u32) -> Option<Instruction> {
    let (rd, rs1, rs2) = (rd_of(i), rs1_of(i), rs2_of(i));
    let f3 = funct3(i);
    let f7 = funct7(i);
    if f7 == 0x00 {
        if f3 == 0 { Some(Instruction::Addw { rd, rs1, rs2 }) }
        else if f3 == 1 { Some(Instruction::Sllw { rd, rs1, rs2 }) }
        else if f3 == 5 { Some(Instruction::Srlw { rd, rs1, rs2 }) }
        else { None }
    } else if f7 == 0x20 {
        if f3 == 0 { Some(Instruction::Subw { rd, rs1, rs2 }) }
        else if f3 == 5 { Some(Instruction::Sraw { rd, rs1, rs2 }) }
        else { None }
    } else if f7 == 0x01 {
        if f3 == 0 { Some(Instruction::Mulw { rd, rs1, rs2 }) }
        else if f3 == 4 { Some(Instruction::Divw { rd, rs1, rs2 }) }
        else if f3 == 5 { Some(Instruction::Divuw { rd, rs1, rs2 }) }
        else if f3 == 6 { Some(Instruction::Remw { rd, rs1, rs2 }) }
        else if f3 == 7 { Some(Instruction::Remuw { rd, rs1, rs2 }) }
        else { None }
    } else {
        None
    }
}

/// The register-immediate instructions (opcode 0x13); shifts take a 6-bit shamt.
pub open spec fn decode_op_imm(i: u32) -> Option<Instruction> {
    let (rd, rs1) = (rd_of(i), rs1_of(i));
    let f3 = funct3(i);
    let imm = i_imm_spec(i);
    let shamt = (i >> 20) & 0x3f;
    if f3 == 0 { Some(Instruction::Addi { rd, rs1, imm }) }
    else if f3 == 1 { Some(Instruction::Slli { rd, rs1, shamt }) }
    else if f3 == 2 { Some(Instruction::Slti { rd, rs1, imm }) }
    else if f3 == 3 { Some(Instruction::Sltiu { rd, rs1, imm }) }
    else if f3 == 4 { Some(Instruction::Xori { rd, rs1, imm }) }
    else if f3 == 5 {
        if (i >> 30) & 1 == 0 { Some(Instruction::Srli { rd, rs1, shamt }) } else { Some(Instruction::Srai { rd, rs1, shamt }) }
    }
    else if f3 == 6 { Some(Instruction::Ori { rd, rs1, imm }) }
    else { Some(Instruction::Andi { rd, rs1, imm }) }
}

/// The 32-bit register-immediate instructions (opcode 0x1B); shifts take a 5-bit shamt.
pub open spec fn decode_op_imm32(i: u32) -> Option<Instruction> {
    let (rd, rs1) = (rd_of(i), rs1_of(i));
    let f3 = funct3(i);
    let shamt = (i >> 20) & 0x1f;
    if f3 == 0 { Some(Instruction::Addiw { rd, rs1, imm: i_imm_spec(i) }) }
    else if f3 == 1 { Some(Instruction::Slliw { rd, rs1, shamt }) }
    else if f3 == 5 {
        if (i >> 30) & 1 == 0 { Some(Instruction::Srliw { rd, rs1, shamt }) } else { Some(Instruction::Sraiw { rd, rs1, shamt }) }
    }
    else { None }
}

pub open spec fn decode_load(i: u32) -> Option<Instruction> {
    let (rd, rs1, imm) = (rd_of(i), rs1_of(i), i_imm_spec(i));
    let f3 = funct3(i);
    if f3 == 0 { Some(Instruction::Lb { rd, rs1, imm }) }
    else if f3 == 1 { Some(Instruction::Lh { rd, rs1, imm }) }
    else if f3 == 2 { Some(Instruction::Lw { rd, rs1, imm }) }
    else if f3 == 3 { Some(Instruction::Ld { rd, rs1, imm }) }
    else if f3 == 4 { Some(Instruction::Lbu { rd, rs1, imm }) }
    else if f3 == 5 { Some(Instruction::Lhu { rd, rs1, imm }) }
    else if f3 == 6 { Some(Instruction::Lwu { rd, rs1, imm }) }
    else { None }
}

pub open spec fn decode_store(i: u32) -> Option<Instruction> {
    let (rs1, rs2, imm) = (rs1_of(i), rs2_of(i), s_imm_spec(i));
    let f3 = funct3(i);
    if f3 == 0 { Some(Instruction::Sb { rs1, rs2, imm }) }
    else if f3 == 1 { Some(Instruction::Sh { rs1, rs2, imm }) }
    else if f3 == 2 { Some(Instruction::Sw { rs1, rs2, imm }) }
    else if f3 == 3 { Some(Instruction::Sd { rs1, rs2, imm }) }
    else { None }
}

pub open spec fn decode_branch(i: u32) -> Option<Instruction> {
    let (rs1, rs2, imm) = (rs1_of(i), rs2_of(i), b_imm_spec(i));
    let f3 = funct3(i);
    if f3 == 0 { Some(Instruction::Beq { rs1, rs2, imm }) }
    else if f3 == 1 { Some(Instruction::Bne { rs1, rs2, imm }) }
    else if f3 == 4 { Some(Instruction::Blt { rs1, rs2, imm }) }
    else if f3 == 5 { Some(Instruction::Bge { rs1, rs2, imm }) }
    else if f3 == 6 { Some(Instruction::Bltu { rs1, rs2, imm }) }
    else if f3 == 7 { Some(Instruction::Bgeu { rs1, rs2, imm }) }
    else { None }
}

/// The atomic memory instructions (opcode 0x2F): funct5 = inst[31:27],
/// funct3 2 = word, 3 = double; aq/rl are ignored.
pub open spec fn decode_amo(i: u32) -> Option<Instruction> {
    let (rd, rs1, rs2) = (rd_of(i), rs1_of(i), rs2_of(i));
    let f5 = (i >> 27) & 0x1f;
    let f3 = funct3(i);
    if f3 != 2 && f3 != 3 {
        None
    } else {
        let d = f3 == 3;
        if f5 == 0x02 { if d { Some(Instruction::LrD { rd, rs1 }) } else { Some(Instruction::LrW { rd, rs1 }) } }
        else if f5 == 0x03 { if d { Some(Instruction::ScD { rd, rs1, rs2 }) } else { Some(Instruction::ScW { rd, rs1, rs2 }) } }
        else if f5 == 0x01 { if d { Some(Instruction::AmoswapD { rd, rs1, rs2 }) } else { Some(Instruction::AmoswapW { rd, rs1, rs2 }) } }
        else if f5 == 0x00 { if d { Some(Instruction::AmoaddD { rd, rs1, rs2 }) } else { Some(Instruction::AmoaddW { rd, rs1, rs2 }) } }
        else if f5 == 0x04 { if d { Some(Instruction::AmoxorD { rd, rs1, rs2 }) } else { Some(Instruction::AmoxorW { rd, rs1, rs2 }) } }
        else if f5 == 0x0C { if d { Some(Instruction::AmoandD { rd, rs1, rs2 }) } else { Some(Instruction::AmoandW { rd, rs1, rs2 }) } }
        else if f5 == 0x08 { if d { Some(Instruction::AmoorD { rd, rs1, rs2 }) } else { Some(Instruction::AmoorW { rd, rs1, rs2 }) } }
        else if f5 == 0x10 { if d { Some(Instruction::AmominD { rd, rs1, rs2 }) } else { Some(Instruction::AmominW { rd, rs1, rs2 }) } }
        else if f5 == 0x14 { if d { Some(Instruction::AmomaxD { rd, rs1, rs2 }) } else { Some(Instruction::AmomaxW { rd, rs1, rs2 }) } }
        else if f5 == 0x18 { if d { Some(Instruction::AmominuD { rd, rs1, rs2 }) } else { Some(Instruction::AmominuW { rd, rs1, rs2 }) } }
        else if f5 == 0x1C { if d { Some(Instruction::AmomaxuD { rd, rs1, rs2 }) } else { Some(Instruction::AmomaxuW { rd, rs1, rs2 }) } }
        else { None }
    }
}

/// The SYSTEM instructions (opcode 0x73).
pub open spec fn decode_system(i: u32) -> Option<Instruction> {
    let (rd, rs1) = (rd_of(i), rs1_of(i));
    let csr = csr_of(i);
    let f3 = funct3(i);
    let uimm = (i >> 15) & 0x1f;
    if f3 == 0 {
        if rs1 == 0 && rd == 0 && csr == 0x000 { Some(Instruction::Ecall) }
        else if rs1 == 0 && rd == 0 && csr == 0x001 { Some(Instruction::Ebreak) }
        else if rs1 == 0 && rd == 0 && csr == 0x102 { Some(Instruction::Sret) }
        else if rs1 == 0 && rd == 0 && csr == 0x302 { Some(Instruction::Mret) }
        else if rs1 == 0 && rd == 0 && csr == 0x105 { Some(Instruction::Wfi) }
        else if (csr >> 5) == 0x09 { Some(Instruction::SfenceVma) }
        else { None }
    }
    else if f3 == 1 { Some(Instruction::Csrrw { rd, rs1, csr }) }
    else if f3 == 2 { Some(Instruction::Csrrs { rd, rs1, csr }) }
    else if f3 == 3 { Some(Instruction::Csrrc { rd, rs1, csr }) }
    else if f3 == 5 { Some(Instruction::Csrrwi { rd, uimm, csr }) }
    else if f3 == 6 { Some(Instruction::Csrrsi { rd, uimm, csr }) }
    else if f3 == 7 { Some(Instruction::Csrrci { rd, uimm, csr }) }
    else { None }
}

/// The F/D loads and stores (opcodes 0x07 and 0x27): funct3 2 = word, 3 = double.
pub open spec fn decode_fp_mem(i: u32) -> Option<Instruction> {
    let f3 = funct3(i);
    if opcode(i) == 0x07 {
        if f3 == 2 { Some(Instruction::Flw { fd: rd_of(i), rs1: rs1_of(i), imm: i_imm_spec(i) }) }
        else if f3 == 3 { Some(Instruction::Fld { fd: rd_of(i), rs1: rs1_of(i), imm: i_imm_spec(i) }) }
        else { None }
    } else {
        if f3 == 2 { Some(Instruction::Fsw { rs1: rs1_of(i), fs2: rs2_of(i), imm: s_imm_spec(i) }) }
        else if f3 == 3 { Some(Instruction::Fsd { rs1: rs1_of(i), fs2: rs2_of(i), imm: s_imm_spec(i) }) }
        else { None }
    }
}

/// OP-FP (opcode 0x53): funct7 = funct5 ++ fmt (0 = single, 1 = double); the
/// rounding mode is funct3 where the operation has one.
pub open spec fn decode_op_fp(i: u32) -> Option<Instruction> {
    let (rd, rs1, rs2) = (rd_of(i), rs1_of(i), rs2_of(i));
    let f3 = funct3(i);
    let f7 = funct7(i);
    let d = (f7 & 3) == 1;
    let f5 = f7 >> 2;
    let rm = f3;
    if (f7 & 3) > 1 {
        None
    } else if f5 == 0x00 {
        if d { Some(Instruction::FaddD { rd, rs1, rs2, rm }) } else { Some(Instruction::FaddS { rd, rs1, rs2, rm }) }
    } else if f5 == 0x01 {
        if d { Some(Instruction::FsubD { rd, rs1, rs2, rm }) } else { Some(Instruction::FsubS { rd, rs1, rs2, rm }) }
    } else if f5 == 0x02 {
        if d { Some(Instruction::FmulD { rd, rs1, rs2, rm }) } else { Some(Instruction::FmulS { rd, rs1, rs2, rm }) }
    } else if f5 == 0x03 {
        if d { Some(Instruction::FdivD { rd, rs1, rs2, rm }) } else { Some(Instruction::FdivS { rd, rs1, rs2, rm }) }
    } else if f5 == 0x0B {
        if rs2 != 0 { None } else if d { Some(Instruction::FsqrtD { rd, rs1, rm }) } else { Some(Instruction::FsqrtS { rd, rs1, rm }) }
    } else if f5 == 0x04 {
        if f3 == 0 { if d { Some(Instruction::FsgnjD { rd, rs1, rs2 }) } else { Some(Instruction::FsgnjS { rd, rs1, rs2 }) } }
        else if f3 == 1 { if d { Some(Instruction::FsgnjnD { rd, rs1, rs2 }) } else { Some(Instruction::FsgnjnS { rd, rs1, rs2 }) } }
        else if f3 == 2 { if d { Some(Instruction::FsgnjxD { rd, rs1, rs2 }) } else { Some(Instruction::FsgnjxS { rd, rs1, rs2 }) } }
        else { None }
    } else if f5 == 0x05 {
        if f3 == 0 { if d { Some(Instruction::FminD { rd, rs1, rs2 }) } else { Some(Instruction::FminS { rd, rs1, rs2 }) } }
        else if f3 == 1 { if d { Some(Instruction::FmaxD { rd, rs1, rs2 }) } else { Some(Instruction::FmaxS { rd, rs1, rs2 }) } }
        else { None }
    } else if f5 == 0x08 {
        if !d && rs2 == 1 { Some(Instruction::FcvtSD { rd, rs1, rm }) }
        else if d && rs2 == 0 { Some(Instruction::FcvtDS { rd, rs1, rm }) }
        else { None }
    } else if f5 == 0x14 {
        if f3 == 0 { if d { Some(Instruction::FleD { rd, rs1, rs2 }) } else { Some(Instruction::FleS { rd, rs1, rs2 }) } }
        else if f3 == 1 { if d { Some(Instruction::FltD { rd, rs1, rs2 }) } else { Some(Instruction::FltS { rd, rs1, rs2 }) } }
        else if f3 == 2 { if d { Some(Instruction::FeqD { rd, rs1, rs2 }) } else { Some(Instruction::FeqS { rd, rs1, rs2 }) } }
        else { None }
    } else if f5 == 0x18 {
        if rs2 == 0 { if d { Some(Instruction::FcvtWD { rd, rs1, rm }) } else { Some(Instruction::FcvtWS { rd, rs1, rm }) } }
        else if rs2 == 1 { if d { Some(Instruction::FcvtWUD { rd, rs1, rm }) } else { Some(Instruction::FcvtWUS { rd, rs1, rm }) } }
        else if rs2 == 2 { if d { Some(Instruction::FcvtLD { rd, rs1, rm }) } else { Some(Instruction::FcvtLS { rd, rs1, rm }) } }
        else if rs2 == 3 { if d { Some(Instruction::FcvtLUD { rd, rs1, rm }) } else { Some(Instruction::FcvtLUS { rd, rs1, rm }) } }
        else { None }
    } else if f5 == 0x1A {
        if rs2 == 0 { if d { Some(Instruction::FcvtDW { rd, rs1, rm }) } else { Some(Instruction::FcvtSW { rd, rs1, rm }) } }
        else if rs2 == 1 { if d { Some(Instruction::FcvtDWU { rd, rs1, rm }) } else { Some(Instruction::FcvtSWU { rd, rs1, rm }) } }
        else if rs2 == 2 { if d { Some(Instruction::FcvtDL { rd, rs1, rm }) } else { Some(Instruction::FcvtSL { rd, rs1, rm }) } }
        else if rs2 == 3 { if d { Some(Instruction::FcvtDLU { rd, rs1, rm }) } else { Some(Instruction::FcvtSLU { rd, rs1, rm }) } }
        else { None }
    } else if f5 == 0x1C && rs2 == 0 {
        if f3 == 0 { if d { Some(Instruction::FmvXD { rd, rs1 }) } else { Some(Instruction::FmvXW { rd, rs1 }) } }
        else if f3 == 1 { if d { Some(Instruction::FclassD { rd, rs1 }) } else { Some(Instruction::FclassS { rd, rs1 }) } }
        else { None }
    } else if f5 == 0x1E && rs2 == 0 && f3 == 0 {
        if d { Some(Instruction::FmvDX { rd, rs1 }) } else { Some(Instruction::FmvWX { rd, rs1 }) }
    } else {
        None
    }
}

/// The fused multiply-adds (opcodes 0x43, 0x47, 0x4B, 0x4F): rs3 = inst[31:27], fmt = inst[26:25].
pub open spec fn decode_fma(i: u32) -> Option<Instruction> {
    let (rd, rs1, rs2) = (rd_of(i), rs1_of(i), rs2_of(i));
    let rs3 = ((i >> 27) & 0x1f) as usize;
    let fmt = (i >> 25) & 3;
    let rm = funct3(i);
    let op = opcode(i);
    if fmt > 1 {
        None
    } else if op == 0x43 {
        if fmt == 1 { Some(Instruction::FmaddD { rd, rs1, rs2, rs3, rm }) } else { Some(Instruction::FmaddS { rd, rs1, rs2, rs3, rm }) }
    } else if op == 0x47 {
        if fmt == 1 { Some(Instruction::FmsubD { rd, rs1, rs2, rs3, rm }) } else { Some(Instruction::FmsubS { rd, rs1, rs2, rs3, rm }) }
    } else if op == 0x4B {
        if fmt == 1 { Some(Instruction::FnmsubD { rd, rs1, rs2, rs3, rm }) } else { Some(Instruction::FnmsubS { rd, rs1, rs2, rs3, rm }) }
    } else {
        if fmt == 1 { Some(Instruction::FnmaddD { rd, rs1, rs2, rs3, rm }) } else { Some(Instruction::FnmaddS { rd, rs1, rs2, rs3, rm }) }
    }
}

/// Whether an instruction's fields are in range: registers < 32, shift amounts
/// < 64 (< 32 for the 32-bit shifts), CSR immediates < 32.
pub open spec fn inst_wf(inst: Instruction) -> bool {
    match inst {
        Instruction::Add { rd, rs1, rs2 } | Instruction::Sub { rd, rs1, rs2 } | Instruction::Sll { rd, rs1, rs2 }
        | Instruction::Slt { rd, rs1, rs2 } | Instruction::Sltu { rd, rs1, rs2 } | Instruction::Xor { rd, rs1, rs2 }
        | Instruction::Srl { rd, rs1, rs2 } | Instruction::Sra { rd, rs1, rs2 } | Instruction::Or { rd, rs1, rs2 }
        | Instruction::And { rd, rs1, rs2 } | Instruction::Addw { rd, rs1, rs2 } | Instruction::Subw { rd, rs1, rs2 }
        | Instruction::Sllw { rd, rs1, rs2 } | Instruction::Srlw { rd, rs1, rs2 } | Instruction::Sraw { rd, rs1, rs2 }
        | Instruction::Mul { rd, rs1, rs2 } | Instruction::Mulh { rd, rs1, rs2 } | Instruction::Mulhsu { rd, rs1, rs2 }
        | Instruction::Mulhu { rd, rs1, rs2 } | Instruction::Div { rd, rs1, rs2 } | Instruction::Divu { rd, rs1, rs2 }
        | Instruction::Rem { rd, rs1, rs2 } | Instruction::Remu { rd, rs1, rs2 } | Instruction::Mulw { rd, rs1, rs2 }
        | Instruction::Divw { rd, rs1, rs2 } | Instruction::Divuw { rd, rs1, rs2 } | Instruction::Remw { rd, rs1, rs2 }
        | Instruction::Remuw { rd, rs1, rs2 } | Instruction::ScD { rd, rs1, rs2 } | Instruction::ScW { rd, rs1, rs2 }
        | Instruction::AmoswapD { rd, rs1, rs2 } | Instruction::AmoswapW { rd, rs1, rs2 }
        | Instruction::AmoaddD { rd, rs1, rs2 } | Instruction::AmoaddW { rd, rs1, rs2 }
        | Instruction::AmoxorD { rd, rs1, rs2 } | Instruction::AmoxorW { rd, rs1, rs2 }
        | Instruction::AmoandD { rd, rs1, rs2 } | Instruction::AmoandW { rd, rs1, rs2 }
        | Instruction::AmoorD { rd, rs1, rs2 } | Instruction::AmoorW { rd, rs1, rs2 }
        | Instruction::AmominD { rd, rs1, rs2 } | Instruction::AmominW { rd, rs1, rs2 }
        | Instruction::AmomaxD { rd, rs1, rs2 } | Instruction::AmomaxW { rd, rs1, rs2 }
        | Instruction::AmominuD { rd, rs1, rs2 } | Instruction::AmominuW { rd, rs1, rs2 }
        | Instruction::AmomaxuD { rd, rs1, rs2 } | Instruction::AmomaxuW { rd, rs1, rs2 } => rd < 32 && rs1 < 32 && rs2 < 32,
        Instruction::Addi { rd, rs1, .. } | Instruction::Slti { rd, rs1, .. } | Instruction::Sltiu { rd, rs1, .. }
        | Instruction::Xori { rd, rs1, .. } | Instruction::Ori { rd, rs1, .. } | Instruction::Andi { rd, rs1, .. }
        | Instruction::Addiw { rd, rs1, .. } | Instruction::Lb { rd, rs1, .. } | Instruction::Lh { rd, rs1, .. }
        | Instruction::Lw { rd, rs1, .. } | Instruction::Ld { rd, rs1, .. } | Instruction::Lbu { rd, rs1, .. }
        | Instruction::Lhu { rd, rs1, .. } | Instruction::Lwu { rd, rs1, .. } | Instruction::Jalr { rd, rs1, .. }
        | Instruction::LrD { rd, rs1 } | Instruction::LrW { rd, rs1 }
        | Instruction::Csrrw { rd, rs1, .. } | Instruction::Csrrs { rd, rs1, .. } | Instruction::Csrrc { rd, rs1, .. } => rd < 32 && rs1 < 32,
        Instruction::Slli { rd, rs1, shamt } | Instruction::Srli { rd, rs1, shamt } | Instruction::Srai { rd, rs1, shamt } => rd < 32 && rs1 < 32 && shamt < 64,
        Instruction::Slliw { rd, rs1, shamt } | Instruction::Srliw { rd, rs1, shamt } | Instruction::Sraiw { rd, rs1, shamt } => rd < 32 && rs1 < 32 && shamt < 32,
        Instruction::Sb { rs1, rs2, .. } | Instruction::Sh { rs1, rs2, .. } | Instruction::Sw { rs1, rs2, .. } | Instruction::Sd { rs1, rs2, .. }
        | Instruction::Beq { rs1, rs2, .. } | Instruction::Bne { rs1, rs2, .. } | Instruction::Blt { rs1, rs2, .. }
        | Instruction::Bge { rs1, rs2, .. } | Instruction::Bltu { rs1, rs2, .. } | Instruction::Bgeu { rs1, rs2, .. } => rs1 < 32 && rs2 < 32,
        Instruction::Jal { rd, .. } | Instruction::Lui { rd, .. } | Instruction::Auipc { rd, .. } => rd < 32,
        Instruction::Csrrwi { rd, uimm, .. } | Instruction::Csrrsi { rd, uimm, .. } | Instruction::Csrrci { rd, uimm, .. } => rd < 32 && uimm < 32,
        Instruction::Flw { fd, rs1, .. } | Instruction::Fld { fd, rs1, .. } => fd < 32 && rs1 < 32,
        Instruction::Fsw { rs1, fs2, .. } | Instruction::Fsd { rs1, fs2, .. } => rs1 < 32 && fs2 < 32,
        Instruction::FmvXW { rd, rs1, .. }
        | Instruction::FmvXD { rd, rs1, .. }
        | Instruction::FmvWX { rd, rs1, .. }
        | Instruction::FmvDX { rd, rs1, .. }
        | Instruction::FclassS { rd, rs1, .. }
        | Instruction::FclassD { rd, rs1, .. }
        | Instruction::FsqrtS { rd, rs1, .. }
        | Instruction::FsqrtD { rd, rs1, .. }
        | Instruction::FcvtSD { rd, rs1, .. }
        | Instruction::FcvtDS { rd, rs1, .. }
        | Instruction::FcvtWS { rd, rs1, .. }
        | Instruction::FcvtWUS { rd, rs1, .. }
        | Instruction::FcvtLS { rd, rs1, .. }
        | Instruction::FcvtLUS { rd, rs1, .. }
        | Instruction::FcvtWD { rd, rs1, .. }
        | Instruction::FcvtWUD { rd, rs1, .. }
        | Instruction::FcvtLD { rd, rs1, .. }
        | Instruction::FcvtLUD { rd, rs1, .. }
        | Instruction::FcvtSW { rd, rs1, .. }
        | Instruction::FcvtSWU { rd, rs1, .. }
        | Instruction::FcvtSL { rd, rs1, .. }
        | Instruction::FcvtSLU { rd, rs1, .. }
        | Instruction::FcvtDW { rd, rs1, .. }
        | Instruction::FcvtDWU { rd, rs1, .. }
        | Instruction::FcvtDL { rd, rs1, .. }
        | Instruction::FcvtDLU { rd, rs1, .. } => rd < 32 && rs1 < 32,
        Instruction::FsgnjS { rd, rs1, rs2, .. }
        | Instruction::FsgnjnS { rd, rs1, rs2, .. }
        | Instruction::FsgnjxS { rd, rs1, rs2, .. }
        | Instruction::FsgnjD { rd, rs1, rs2, .. }
        | Instruction::FsgnjnD { rd, rs1, rs2, .. }
        | Instruction::FsgnjxD { rd, rs1, rs2, .. }
        | Instruction::FminS { rd, rs1, rs2, .. }
        | Instruction::FmaxS { rd, rs1, rs2, .. }
        | Instruction::FminD { rd, rs1, rs2, .. }
        | Instruction::FmaxD { rd, rs1, rs2, .. }
        | Instruction::FleS { rd, rs1, rs2, .. }
        | Instruction::FltS { rd, rs1, rs2, .. }
        | Instruction::FeqS { rd, rs1, rs2, .. }
        | Instruction::FleD { rd, rs1, rs2, .. }
        | Instruction::FltD { rd, rs1, rs2, .. }
        | Instruction::FeqD { rd, rs1, rs2, .. }
        | Instruction::FaddS { rd, rs1, rs2, .. }
        | Instruction::FsubS { rd, rs1, rs2, .. }
        | Instruction::FmulS { rd, rs1, rs2, .. }
        | Instruction::FdivS { rd, rs1, rs2, .. }
        | Instruction::FaddD { rd, rs1, rs2, .. }
        | Instruction::FsubD { rd, rs1, rs2, .. }
        | Instruction::FmulD { rd, rs1, rs2, .. }
        | Instruction::FdivD { rd, rs1, rs2, .. } => rd < 32 && rs1 < 32 && rs2 < 32,
        Instruction::FmaddS { rd, rs1, rs2, rs3, .. }
        | Instruction::FmsubS { rd, rs1, rs2, rs3, .. }
        | Instruction::FnmsubS { rd, rs1, rs2, rs3, .. }
        | Instruction::FnmaddS { rd, rs1, rs2, rs3, .. }
        | Instruction::FmaddD { rd, rs1, rs2, rs3, .. }
        | Instruction::FmsubD { rd, rs1, rs2, rs3, .. }
        | Instruction::FnmsubD { rd, rs1, rs2, rs3, .. }
        | Instruction::FnmaddD { rd, rs1, rs2, rs3, .. } => rd < 32 && rs1 < 32 && rs2 < 32 && rs3 < 32,
        _ => true,
    }
}

/// The instruction that the word `i` encodes, if any.
pub open spec fn decode_spec(i: u32) -> Option<Instruction> {
    let op = opcode(i);
    if op == 0x33 { decode_op(i) }
    else if op == 0x3B { decode_op32(i) }
    else if op == 0x13 { decode_op_imm(i) }
    else if op == 0x1B { decode_op_imm32(i) }
    else if op == 0x03 { decode_load(i) }
    else if op == 0x23 { decode_store(i) }
    else if op == 0x63 { decode_branch(i) }
    else if op == 0x6F { Some(Instruction::Jal { rd: rd_of(i), imm: j_imm_spec(i) }) }
    else if op == 0x67 { Some(Instruction::Jalr { rd: rd_of(i), rs1: rs1_of(i), imm: i_imm_spec(i) }) }
    else if op == 0x37 { Some(Instruction::Lui { rd: rd_of(i), imm: u_imm_spec(i) }) }
    else if op == 0x17 { Some(Instruction::Auipc { rd: rd_of(i), imm: u_imm_spec(i) }) }
    else if op == 0x0F { if funct3(i) == 1 { Some(Instruction::FenceI) } else { Some(Instruction::Fence) } }
    else if op == 0x2F { decode_amo(i) }
    else if op == 0x73 { decode_system(i) }
    else if op == 0x07 || op == 0x27 { decode_fp_mem(i) }
    else if op == 0x53 { decode_op_fp(i) }
    else if op == 0x43 || op == 0x47 || op == 0x4B || op == 0x4F { decode_fma(i) }
    else { None }
}

/// Ranges of the fields of an instruction word.
proof fn lemma_fields(i: u32)
    by (bit_vector)
    ensures
        (i >> 7) & 0x1f < 32,
        (i >> 15) & 0x1f < 32,
        (i >> 20) & 0x1f < 32,
        (i >> 20) & 0x3f < 64,
        (i >> 12) & 0x7 < 8,
        (i >> 27) & 0x1f < 32,
        i >> 20 < 0x1000,
        ((i >> 25) << 5) | ((i >> 7) & 0x1f) < 0x1000,
        ((i >> 31) << 12) | (((i >> 7) & 0x1) << 11) | (((i >> 25) & 0x3f) << 5) | (((i >> 8) & 0xf) << 1) < 0x2000,
        ((i >> 31) << 20) | (i & 0x000F_F000) | (((i >> 20) & 0x1) << 11) | (((i >> 21) & 0x3ff) << 1) < 0x20_0000,
{
}

/// The powers of two that immediates are sign-extended with.
proof fn lemma_shift_consts()
    by (bit_vector)
    ensures
        1u64 << 11u32 == 2048,
        1u64 << 12u32 == 4096,
        1u64 << 13u32 == 8192,
        1u64 << 20u32 == 0x10_0000,
        1u64 << 21u32 == 0x20_0000,
        1u64 << 31u32 == 0x8000_0000,
        1u64 << 32u32 == 0x1_0000_0000,
{
}

fn rd(i: u32) -> (r: usize)
    ensures
        r == rd_of(i),
        r < 32,
{
    proof {
        lemma_fields(i);
    }
    ((i >> 7) & 0x1f) as usize
}

fn rs1(i: u32) -> (r: usize)
    ensures
        r == rs1_of(i),
        r < 32,
{
    proof {
        lemma_fields(i);
    }
    ((i >> 15) & 0x1f) as usize
}

fn rs2(i: u32) -> (r: usize)
    ensures
        r == rs2_of(i),
        r < 32,
{
    proof {
        lemma_fields(i);
    }
    ((i >> 20) & 0x1f) as usize
}

/// `raw` read as a `bits`-bit two's-complement number.
fn signed(raw: u32, bits: u32) -> (r: i64)
    requires
        bits == 12 || bits == 13 || bits == 21 || bits == 32,
        (raw as int) < vstd::arithmetic::power2::pow2(bits as nat),
    ensures
        r == signed_field(raw, bits as nat),
{
    proof {
        vstd::arithmetic::power2::lemma2_to64();
    }
    let half: u64 = 1u64 << (bits - 1);
    let full: u64 = 1u64 << bits;
    assert(half == vstd::arithmetic::power2::pow2((bits - 1) as nat)) by {
        vstd::arithmetic::power2::lemma2_to64();
        lemma_shift_consts();
    }
    assert(full == vstd::arithmetic::power2::pow2(bits as nat)) by {
        vstd::arithmetic::power2::lemma2_to64();
        lemma_shift_consts();
    }
    if raw as u64 >= half {
        raw as i64 - full as i64
    } else {
        raw as i64
    }
}

fn i_imm(i: u32) -> (r: i64)
    ensures
        r == i_imm_spec(i),
{
    proof {
        vstd::arithmetic::power2::lemma2_to64();
    }
    proof {
        lemma_fields(i);
    }
    signed(i >> 20, 12)
}

fn s_imm(i: u32) -> (r: i64)
    ensures
        r == s_imm_spec(i),
{
    proof {
        vstd::arithmetic::power2::lemma2_to64();
    }
    let raw: u32 = ((i >> 25) << 5) | ((i >> 7) & 0x1f);
    proof {
        lemma_fields(i);
    }
    signed(raw, 12)
}

fn b_imm(i: u32) -> (r: i64)
    ensures
        r == b_imm_spec(i),
{
    proof {
        vstd::arithmetic::power2::lemma2_to64();
    }
    let raw: u32 = ((i >> 31) << 12) | (((i >> 7) & 0x1) << 11) | (((i >> 25) & 0x3f) << 5) | (((i >> 8) & 0xf) << 1);
    proof {
        lemma_fields(i);
    }
    signed(raw, 13)
}

fn u_imm(i: u32) -> (r: i64)
    ensures
        r == u_imm_spec(i),
{
    proof {
        vstd::arithmetic::power2::lemma2_to64();
    }
    signed(i & 0xFFFF_F000, 32)
}

fn j_imm(i: u32) -> (r: i64)
    ensures
        r == j_imm_spec(i),
{
    proof {
        vstd::arithmetic::power2::lemma2_to64();
    }
    let raw: u32 = ((i >> 31) << 20) | (i & 0x000F_F000) | (((i >> 20) & 0x1) << 11) | (((i >> 21) & 0x3ff) << 1);
    proof {
        lemma_fields(i);
    }
    signed(raw, 21)
}

fn dec_op(i: u32) -> (r: Option<Instruction>)
    ensures
        r == decode_op(i),
        r matches Some(ins) ==> inst_wf(ins),
{
    let (rd, rs1, rs2) = (rd(i), rs1(i), rs2(i));
    let f3: u32 = (i >> 12) & 0x7;
    let f7: u32 = (i >> 25) & 0x7f;
    proof {
        lemma_fields(i);
    }
    match (f7, f3) {
        (0x00, 0) => Some(Instruction::Add { rd, rs1, rs2 }),
        (0x00, 1) => Some(Instruction::Sll { rd, rs1, rs2 }),
        (0x00, 2) => Some(Instruction::Slt { rd, rs1, rs2 }),
        (0x00, 3) => Some(Instruction::Sltu { rd, rs1, rs2 }),
        (0x00, 4) => Some(Instruction::Xor { rd, rs1, rs2 }),
        (0x00, 5) => Some(Instruction::Srl { rd, rs1, rs2 }),
        (0x00, 6) => Some(Instruction::Or { rd, rs1, rs2 }),
        (0x00, _) => Some(Instruction::And { rd, rs1, rs2 }),
        (0x20, 0) => Some(Instruction::Sub { rd, rs1, rs2 }),
        (0x20, 5) => Some(Instruction::Sra { rd, rs1, rs2 }),
        (0x01, 0) => Some(Instruction::Mul { rd, rs1, rs2 }),
        (0x01, 1) => Some(Instruction::Mulh { rd, rs1, rs2 }),
        (0x01, 2) => Some(Instruction::Mulhsu { rd, rs1, rs2 }),
        (0x01, 3) => Some(Instruction::Mulhu { rd, rs1, rs2 }),
        (0x01, 4) => Some(Instruction::Div { rd, rs1, rs2 }),
        (0x01, 5) => Some(Instruction::Divu { rd, rs1, rs2 }),
        (0x01, 6) => Some(Instruction::Rem { rd, rs1, rs2 }),
        (0x01, _) => Some(Instruction::Remu { rd, rs1, rs2 }),
        _ => None,
    }
}

fn dec_op32(i: u32) -> (r: Option<Instruction>)
    ensures
        r == decode_op32(i),
        r matches Some(ins) ==> inst_wf(ins),
{
    let (rd, rs1, rs2) = (rd(i), rs1(i), rs2(i));
    let f3: u32 = (i >> 12) & 0x7;
    let f7: u32 = (i >> 25) & 0x7f;
    match (f7, f3) {
        (0x00, 0) => Some(Instruction::Addw { rd, rs1, rs2 }),
        (0x00, 1) => Some(Instruction::Sllw { rd, rs1, rs2 }),
        (0x00, 5) => Some(Instruction::Srlw { rd, rs1, rs2 }),
        (0x20, 0) => Some(Instruction::Subw { rd, rs1, rs2 }),
        (0x20, 5) => Some(Instruction::Sraw { rd, rs1, rs2 }),
        (0x01, 0) => Some(Instruction::Mulw { rd, rs1, rs2 }),
        (0x01, 4) => Some(Instruction::Divw { rd, rs1, rs2 }),
        (0x01, 5) => Some(Instruction::Divuw { rd, rs1, rs2 }),
        (0x01, 6) => Some(Instruction::Remw { rd, rs1, rs2 }),
        (0x01, 7) => Some(Instruction::Remuw { rd, rs1, rs2 }),
        _ => None,
    }
}

fn dec_op_imm(i: u32) -> (r: Option<Instruction>)
    ensures
        r == decode_op_imm(i),
        r matches Some(ins) ==> inst_wf(ins),
{
    let (rd, rs1) = (rd(i), rs1(i));
    let f3: u32 = (i >> 12) & 0x7;
    proof {
        lemma_fields(i);
    }
    let imm: i64 = i_imm(i);
    let shamt: u32 = (i >> 20) & 0x3f;
    proof {
        lemma_fields(i);
    }
    match f3 {
        0 => Some(Instruction::Addi { rd, rs1, imm }),
        1 => Some(Instruction::Slli { rd, rs1, shamt }),
        2 => Some(Instruction::Slti { rd, rs1, imm }),
        3 => Some(Instruction::Sltiu { rd, rs1, imm }),
        4 => Some(Instruction::Xori { rd, rs1, imm }),
        5 => {
            if (i >> 30) & 1 == 0 {
                Some(Instruction::Srli { rd, rs1, shamt })
            } else {
                Some(Instruction::Srai { rd, rs1, shamt })
            }
        },
        6 => Some(Instruction::Ori { rd, rs1, imm }),
        _ => Some(Instruction::Andi { rd, rs1, imm }),
    }
}

fn dec_op_imm32(i: u32) -> (r: Option<Instruction>)
    ensures
        r == decode_op_imm32(i),
        r matches Some(ins) ==> inst_wf(ins),
{
    let (rd, rs1) = (rd(i), rs1(i));
    let f3: u32 = (i >> 12) & 0x7;
    let shamt: u32 = (i >> 20) & 0x1f;
    proof {
        lemma_fields(i);
    }
    match f3 {
        0 => Some(Instruction::Addiw { rd, rs1, imm: i_imm(i) }),
        1 => Some(Instruction::Slliw { rd, rs1, shamt }),
        5 => {
            if (i >> 30) & 1 == 0 {
                Some(Instruction::Srliw { rd, rs1, shamt })
            } else {
                Some(Instruction::Sraiw { rd, rs1, shamt })
            }
        },
        _ => None,
    }
}

fn dec_load(i: u32) -> (r: Option<Instruction>)
    ensures
        r == decode_load(i),
        r matches Some(ins) ==> inst_wf(ins),
{
    let (rd, rs1, imm) = (rd(i), rs1(i), i_imm(i));
    let f3: u32 = (i >> 12) & 0x7;
    match f3 {
        0 => Some(Instruction::Lb { rd, rs1, imm }),
        1 => Some(Instruction::Lh { rd, rs1, imm }),
        2 => Some(Instruction::Lw { rd, rs1, imm }),
        3 => Some(Instruction::Ld { rd, rs1, imm }),
        4 => Some(Instruction::Lbu { rd, rs1, imm }),
        5 => Some(Instruction::Lhu { rd, rs1, imm }),
        6 => Some(Instruction::Lwu { rd, rs1, imm }),
        _ => None,
    }
}

fn dec_store(i: u32) -> (r: Option<Instruction>)
    ensures
        r == decode_store(i),
        r matches Some(ins) ==> inst_wf(ins),
{
    let (rs1, rs2, imm) = (rs1(i), rs2(i), s_imm(i));
    let f3: u32 = (i >> 12) & 0x7;
    match f3 {
        0 => Some(Instruction::Sb { rs1, rs2, imm }),
        1 => Some(Instruction::Sh { rs1, rs2, imm }),
        2 => Some(Instruction::Sw { rs1, rs2, imm }),
        3 => Some(Instruction::Sd { rs1, rs2, imm }),
        _ => None,
    }
}

fn dec_branch(i: u32) -> (r: Option<Instruction>)
    ensures
        r == decode_branch(i),
        r matches Some(ins) ==> inst_wf(ins),
{
    let (rs1, rs2, imm) = (rs1(i), rs2(i), b_imm(i));
    let f3: u32 = (i >> 12) & 0x7;
    match f3 {
        0 => Some(Instruction::Beq { rs1, rs2, imm }),
        1 => Some(Instruction::Bne { rs1, rs2, imm }),
        4 => Some(Instruction::Blt { rs1, rs2, imm }),
        5 => Some(Instruction::Bge { rs1, rs2, imm }),
        6 => Some(Instruction::Bltu { rs1, rs2, imm }),
        7 => Some(Instruction::Bgeu { rs1, rs2, imm }),
        _ => None,
    }
}

fn dec_amo(i: u32) -> (r: Option<Instruction>)
    ensures
        r == decode_amo(i),
        r matches Some(ins) ==> inst_wf(ins),
{
    let (rd, rs1, rs2) = (rd(i), rs1(i), rs2(i));
    let f5: u32 = (i >> 27) & 0x1f;
    let f3: u32 = (i >> 12) & 0x7;
    if f3 != 2 && f3 != 3 {
        return None;
    }
    let d = f3 == 3;
    match (f5, d) {
        (0x02, true) => Some(Instruction::LrD { rd, rs1 }),
        (0x02, false) => Some(Instruction::LrW { rd, rs1 }),
        (0x03, true) => Some(Instruction::ScD { rd, rs1, rs2 }),
        (0x03, false) => Some(Instruction::ScW { rd, rs1, rs2 }),
        (0x01, true) => Some(Instruction::AmoswapD { rd, rs1, rs2 }),
        (0x01, false) => Some(Instruction::AmoswapW { rd, rs1, rs2 }),
        (0x00, true) => Some(Instruction::AmoaddD { rd, rs1, rs2 }),
        (0x00, false) => Some(Instruction::AmoaddW { rd, rs1, rs2 }),
        (0x04, true) => Some(Instruction::AmoxorD { rd, rs1, rs2 }),
        (0x04, false) => Some(Instruction::AmoxorW { rd, rs1, rs2 }),
        (0x0C, true) => Some(Instruction::AmoandD { rd, rs1, rs2 }),
        (0x0C, false) => Some(Instruction::AmoandW { rd, rs1, rs2 }),
        (0x08, true) => Some(Instruction::AmoorD { rd, rs1, rs2 }),
        (0x08, false) => Some(Instruction::AmoorW { rd, rs1, rs2 }),
        (0x10, true) => Some(Instruction::AmominD { rd, rs1, rs2 }),
        (0x10, false) => Some(Instruction::AmominW { rd, rs1, rs2 }),
        (0x14, true) => Some(Instruction::AmomaxD { rd, rs1, rs2 }),
        (0x14, false) => Some(Instruction::AmomaxW { rd, rs1, rs2 }),
        (0x18, true) => Some(Instruction::AmominuD { rd, rs1, rs2 }),
        (0x18, false) => Some(Instruction::AmominuW { rd, rs1, rs2 }),
        (0x1C, true) => Some(Instruction::AmomaxuD { rd, rs1, rs2 }),
        (0x1C, false) => Some(Instruction::AmomaxuW { rd, rs1, rs2 }),
        _ => None,
    }
}

fn dec_fp_mem(i: u32) -> (r: Option<Instruction>)
    requires
        (i & 0x7f) == 0x07 || (i & 0x7f) == 0x27,
    ensures
        r == decode_fp_mem(i),
        r matches Some(ins) ==> inst_wf(ins),
{
    let f3: u32 = (i >> 12) & 0x7;
    proof {
        lemma_fields(i);
    }
    if (i & 0x7f) == 0x07 {
        if f3 == 2 { Some(Instruction::Flw { fd: rd(i), rs1: rs1(i), imm: i_imm(i) }) }
        else if f3 == 3 { Some(Instruction::Fld { fd: rd(i), rs1: rs1(i), imm: i_imm(i) }) }
        else { None }
    } else {
        if f3 == 2 { Some(Instruction::Fsw { rs1: rs1(i), fs2: rs2(i), imm: s_imm(i) }) }
        else if f3 == 3 { Some(Instruction::Fsd { rs1: rs1(i), fs2: rs2(i), imm: s_imm(i) }) }
        else { None }
    }
}

fn dec_op_fp(i: u32) -> (r: Option<Instruction>)
    ensures
        r == decode_op_fp(i),
        r matches Some(ins) ==> inst_wf(ins),
{
    let (rd, rs1, rs2) = (rd(i), rs1(i), rs2(i));
    let f3: u32 = (i >> 12) & 0x7;
    let f7: u32 = (i >> 25) & 0x7f;
    let d = (f7 & 3) == 1;
    let f5: u32 = f7 >> 2;
    let rm: u32 = f3;
    proof {
        lemma_fields(i);
    }
    if (f7 & 3) > 1 {
        None
    } else if f5 == 0x00 {
        if d { Some(Instruction::FaddD { rd, rs1, rs2, rm }) } else { Some(Instruction::FaddS { rd, rs1, rs2, rm }) }
    } else if f5 == 0x01 {
        if d { Some(Instruction::FsubD { rd, rs1, rs2, rm }) } else { Some(Instruction::FsubS { rd, rs1, rs2, rm }) }
    } else if f5 == 0x02 {
        if d { Some(Instruction::FmulD { rd, rs1, rs2, rm }) } else { Some(Instruction::FmulS { rd, rs1, rs2, rm }) }
    } else if f5 == 0x03 {
        if d { Some(Instruction::FdivD { rd, rs1, rs2, rm }) } else { Some(Instruction::FdivS { rd, rs1, rs2, rm }) }
    } else if f5 == 0x0B {
        if rs2 != 0 { None } else if d { Some(Instruction::FsqrtD { rd, rs1, rm }) } else { Some(Instruction::FsqrtS { rd, rs1, rm }) }
    } else if f5 == 0x04 {
        if f3 == 0 { if d { Some(Instruction::FsgnjD { rd, rs1, rs2 }) } else { Some(Instruction::FsgnjS { rd, rs1, rs2 }) } }
        else if f3 == 1 { if d { Some(Instruction::FsgnjnD { rd, rs1, rs2 }) } else { Some(Instruction::FsgnjnS { rd, rs1, rs2 }) } }
        else if f3 == 2 { if d { Some(Instruction::FsgnjxD { rd, rs1, rs2 }) } else { Some(Instruction::FsgnjxS { rd, rs1, rs2 }) } }
        else { None }
    } else if f5 == 0x05 {
        if f3 == 0 { if d { Some(Instruction::FminD { rd, rs1, rs2 }) } else { Some(Instruction::FminS { rd, rs1, rs2 }) } }
        else if f3 == 1 { if d { Some(Instruction::FmaxD { rd, rs1, rs2 }) } else { Some(Instruction::FmaxS { rd, rs1, rs2 }) } }
        else { None }
    } else if f5 == 0x08 {
        if !d && rs2 == 1 { Some(Instruction::FcvtSD { rd, rs1, rm }) }
        else if d && rs2 == 0 { Some(Instruction::FcvtDS { rd, rs1, rm }) }
        else { None }
    } else if f5 == 0x14 {
        if f3 == 0 { if d { Some(Instruction::FleD { rd, rs1, rs2 }) } else { Some(Instruction::FleS { rd, rs1, rs2 }) } }
        else if f3 == 1 { if d { Some(Instruction::FltD { rd, rs1, rs2 }) } else { Some(Instruction::FltS { rd, rs1, rs2 }) } }
        else if f3 == 2 { if d { Some(Instruction::FeqD { rd, rs1, rs2 }) } else { Some(Instruction::FeqS { rd, rs1, rs2 }) } }
        else { None }
    } else if f5 == 0x18 {
        if rs2 == 0 { if d { Some(Instruction::FcvtWD { rd, rs1, rm }) } else { Some(Instruction::FcvtWS { rd, rs1, rm }) } }
        else if rs2 == 1 { if d { Some(Instruction::FcvtWUD { rd, rs1, rm }) } else { Some(Instruction::FcvtWUS { rd, rs1, rm }) } }
        else if rs2 == 2 { if d { Some(Instruction::FcvtLD { rd, rs1, rm }) } else { Some(Instruction::FcvtLS { rd, rs1, rm }) } }
        else if rs2 == 3 { if d { Some(Instruction::FcvtLUD { rd, rs1, rm }) } else { Some(Instruction::FcvtLUS { rd, rs1, rm }) } }
        else { None }
    } else if f5 == 0x1A {
        if rs2 == 0 { if d { Some(Instruction::FcvtDW { rd, rs1, rm }) } else { Some(Instruction::FcvtSW { rd, rs1, rm }) } }
        else if rs2 == 1 { if d { Some(Instruction::FcvtDWU { rd, rs1, rm }) } else { Some(Instruction::FcvtSWU { rd, rs1, rm }) } }
        else if rs2 == 2 { if d { Some(Instruction::FcvtDL { rd, rs1, rm }) } else { Some(Instruction::FcvtSL { rd, rs1, rm }) } }
        else if rs2 == 3 { if d { Some(Instruction::FcvtDLU { rd, rs1, rm }) } else { Some(Instruction::FcvtSLU { rd, rs1, rm }) } }
        else { None }
    } else if f5 == 0x1C && rs2 == 0 {
        if f3 == 0 { if d { Some(Instruction::FmvXD { rd, rs1 }) } else { Some(Instruction::FmvXW { rd, rs1 }) } }
        else if f3 == 1 { if d { Some(Instruction::FclassD { rd, rs1 }) } else { Some(Instruction::FclassS { rd, rs1 }) } }
        else { None }
    } else if f5 == 0x1E && rs2 == 0 && f3 == 0 {
        if d { Some(Instruction::FmvDX { rd, rs1 }) } else { Some(Instruction::FmvWX { rd, rs1 }) }
    } else {
        None
    }
}

fn dec_fma(i: u32) -> (r: Option<Instruction>)
    ensures
        r == decode_fma(i),
        r matches Some(ins) ==> inst_wf(ins),
{
    let (rd, rs1, rs2) = (rd(i), rs1(i), rs2(i));
    let rs3: usize = ((i >> 27) & 0x1f) as usize;
    let fmt: u32 = (i >> 25) & 3;
    let rm: u32 = (i >> 12) & 0x7;
    let op: u32 = i & 0x7f;
    proof {
        lemma_fields(i);
    }
    if fmt > 1 {
        None
    } else if op == 0x43 {
        if fmt == 1 { Some(Instruction::FmaddD { rd, rs1, rs2, rs3, rm }) } else { Some(Instruction::FmaddS { rd, rs1, rs2, rs3, rm }) }
    } else if op == 0x47 {
        if fmt == 1 { Some(Instruction::FmsubD { rd, rs1, rs2, rs3, rm }) } else { Some(Instruction::FmsubS { rd, rs1, rs2, rs3, rm }) }
    } else if op == 0x4B {
        if fmt == 1 { Some(Instruction::FnmsubD { rd, rs1, rs2, rs3, rm }) } else { Some(Instruction::FnmsubS { rd, rs1, rs2, rs3, rm }) }
    } else {
        if fmt == 1 { Some(Instruction::FnmaddD { rd, rs1, rs2, rs3, rm }) } else { Some(Instruction::FnmaddS { rd, rs1, rs2, rs3, rm }) }
    }
}

fn dec_system(i: u32) -> (r: Option<Instruction>)
    ensures
        r == decode_system(i),
        r matches Some(ins) ==> inst_wf(ins),
{
    let (rd, rs1) = (rd(i), rs1(i));
    let csr: u16 = (i >> 20) as u16;
    let f3: u32 = (i >> 12) & 0x7;
    let uimm: u32 = (i >> 15) & 0x1f;
    proof {
        lemma_fields(i);
    }
    match f3 {
        0 => {
            if rs1 == 0 && rd == 0 && csr == 0x000 {
                Some(Instruction::Ecall)
            } else if rs1 == 0 && rd == 0 && csr == 0x001 {
                Some(Instruction::Ebreak)
            } else if rs1 == 0 && rd == 0 && csr == 0x102 {
                Some(Instruction::Sret)
            } else if rs1 == 0 && rd == 0 && csr == 0x302 {
                Some(Instruction::Mret)
            } else if rs1 == 0 && rd == 0 && csr == 0x105 {
                Some(Instruction::Wfi)
            } else if (csr >> 5) == 0x09 {
                // SFENCE.VMA: funct7 = 0x09, so the csr field is 0x120..=0x13F
                Some(Instruction::SfenceVma)
            } else {
                None
            }
        },
        1 => Some(Instruction::Csrrw { rd, rs1, csr }),
        2 => Some(Instruction::Csrrs { rd, rs1, csr }),
        3 => Some(Instruction::Csrrc { rd, rs1, csr }),
        5 => Some(Instruction::Csrrwi { rd, uimm, csr }),
        6 => Some(Instruction::Csrrsi { rd, uimm, csr }),
        7 => Some(Instruction::Csrrci { rd, uimm, csr }),
        _ => None,
    }
}

/// Every decoded instruction is well-formed: register numbers below 32, shift
/// amounts and CSR immediates in range.
pub proof fn lemma_decode_wf(i: u32)
    ensures
        decode_spec(i) matches Some(ins) ==> inst_wf(ins),
{
    lemma_fields(i);
}

/// Decode a 32-bit instruction word. Any word that encodes no instruction of
/// this hart is an illegal instruction carrying the raw bits.
pub fn decode(inst: u32) -> (r: Result<Instruction, IllegalInstruction>)
    ensures
        r is Err <==> decode_spec(inst) is None,
        r matches Ok(ins) ==> decode_spec(inst) == Some(ins),
        r matches Err(e) ==> e.raw == inst,
        r matches Ok(ins) ==> inst_wf(ins),
{
    let op: u32 = inst & 0x7f;
    let d = match op {
        0x33 => dec_op(inst),
        0x3B => dec_op32(inst),
        0x13 => dec_op_imm(inst),
        0x1B => dec_op_imm32(inst),
        0x03 => dec_load(inst),
        0x23 => dec_store(inst),
        0x63 => dec_branch(inst),
        0x6F => Some(Instruction::Jal { rd: rd(inst), imm: j_imm(inst) }),
        0x67 => Some(Instruction::Jalr { rd: rd(inst), rs1: rs1(inst), imm: i_imm(inst) }),
        0x37 => Some(Instruction::Lui { rd: rd(inst), imm: u_imm(inst) }),
        0x17 => Some(Instruction::Auipc { rd: rd(inst), imm: u_imm(inst) }),
        0x0F => if (inst >> 12) & 0x7 == 1 { Some(Instruction::FenceI) } else { Some(Instruction::Fence) },
        0x2F => dec_amo(inst),
        0x73 => dec_system(inst),
        0x07 | 0x27 => dec_fp_mem(inst),
        0x53 => dec_op_fp(inst),
        0x43 | 0x47 | 0x4B | 0x4F => dec_fma(inst),
        _ => None,
    };
    match d {
        Some(ins) => Ok(ins),
        None => Err(IllegalInstruction { raw: inst }),
    }
}


// ---- RV64C: compressed instructions ----

/// The 6-bit CI immediate field: inst[12] ++ inst[6:2] (also C.SLLI/C.SRLI/C.SRAI's shamt).
pub open spec fn ci_field(c: u16) -> u64 {
    let r = c as u64;
    ((r >> 12) & 1) << 5 | ((r >> 2) & 0x1f)
}

/// C.ADDI4SPN's zero-extended immediate: inst[12:11]=imm[5:4], inst[10:7]=imm[9:6],
/// inst[6]=imm[2], inst[5]=imm[3].
pub open spec fn ciw_imm(c: u16) -> u64 {
    let r = c as u64;
    ((r >> 11) & 3) << 4 | ((r >> 7) & 0xf) << 6 | ((r >> 6) & 1) << 2 | ((r >> 5) & 1) << 3
}

/// Doubleword load/store offset (C.LD, C.SD, C.FLD, C.FSD): inst[12:10]=imm[5:3], inst[6:5]=imm[7:6].
pub open spec fn cl_d_off(c: u16) -> u64 {
    let r = c as u64;
    ((r >> 10) & 7) << 3 | ((r >> 5) & 3) << 6
}

/// Word load/store offset (C.LW, C.SW): inst[12:10]=imm[5:3], inst[6]=imm[2], inst[5]=imm[6].
pub open spec fn cl_w_off(c: u16) -> u64 {
    let r = c as u64;
    ((r >> 10) & 7) << 3 | ((r >> 6) & 1) << 2 | ((r >> 5) & 1) << 6
}

/// C.ADDI16SP's field: inst[12]=imm[9], inst[4:3]=imm[8:7], inst[5]=imm[6],
/// inst[2]=imm[5], inst[6]=imm[4].
pub open spec fn addi16sp_field(c: u16) -> u64 {
    let r = c as u64;
    ((r >> 12) & 1) << 9 | ((r >> 3) & 3) << 7 | ((r >> 5) & 1) << 6 | ((r >> 2) & 1) << 5 | ((r >> 6) & 1) << 4
}

/// C.LDSP / C.FLDSP offset: inst[12]=imm[5], inst[6:5]=imm[4:3], inst[4:2]=imm[8:6].
pub open spec fn ldsp_off(c: u16) -> u64 {
    let r = c as u64;
    ((r >> 12) & 1) << 5 | ((r >> 5) & 3) << 3 | ((r >> 2) & 7) << 6
}

/// C.LWSP offset: inst[12]=imm[5], inst[6:4]=imm[4:2], inst[3:2]=imm[7:6].
pub open spec fn lwsp_off(c: u16) -> u64 {
    let r = c as u64;
    ((r >> 12) & 1) << 5 | ((r >> 4) & 7) << 2 | ((r >> 2) & 3) << 6
}

/// C.SDSP / C.FSDSP offset: inst[12:10]=imm[5:3], inst[9:7]=imm[8:6].
pub open spec fn sdsp_off(c: u16) -> u64 {
    let r = c as u64;
    ((r >> 10) & 7) << 3 | ((r >> 7) & 7) << 6
}

/// C.SWSP offset: inst[12:9]=imm[5:2], inst[8:7]=imm[7:6].
pub open spec fn swsp_off(c: u16) -> u64 {
    let r = c as u64;
    ((r >> 9) & 0xf) << 2 | ((r >> 7) & 3) << 6
}

/// Register field inst[11:7] (rd / rs1).
pub open spec fn c_rd(c: u16) -> usize { (((c as u64) >> 7) & 0x1f) as usize }

/// Register field inst[6:2] (rs2).
pub open spec fn c_rs2(c: u16) -> usize { (((c as u64) >> 2) & 0x1f) as usize }

/// Compressed register field inst[9:7] (rs1' / rd'): x8..x15.
pub open spec fn c_rs1p(c: u16) -> usize { ((((c as u64) >> 7) & 7) + 8) as usize }

/// Compressed register field inst[4:2] (rd' / rs2'): x8..x15.
pub open spec fn c_rs2p(c: u16) -> usize { ((((c as u64) >> 2) & 7) + 8) as usize }

/// The sign-extended CI immediate.
pub open spec fn ci_imm(c: u16) -> i64 { sign_ext_spec(ci_field(c), 6) as i64 }

/// Quadrant 0: stack-pointer-relative add and register-based loads and stores.
pub open spec fn decode_c0(c: u16) -> Option<Instruction> {
    let f3 = ((c as u64) >> 13) & 7;
    let (rdp, rs1p) = (c_rs2p(c), c_rs1p(c));
    if f3 == 0 {
        if ciw_imm(c) == 0 { None } else { Some(Instruction::Addi { rd: rdp, rs1: 2, imm: ciw_imm(c) as i64 }) }
    } else if f3 == 1 { Some(Instruction::Fld { fd: rdp, rs1: rs1p, imm: cl_d_off(c) as i64 }) }
    else if f3 == 2 { Some(Instruction::Lw { rd: rdp, rs1: rs1p, imm: cl_w_off(c) as i64 }) }
    else if f3 == 3 { Some(Instruction::Ld { rd: rdp, rs1: rs1p, imm: cl_d_off(c) as i64 }) }
    else if f3 == 5 { Some(Instruction::Fsd { rs1: rs1p, fs2: rdp, imm: cl_d_off(c) as i64 }) }
    else if f3 == 6 { Some(Instruction::Sw { rs1: rs1p, rs2: rdp, imm: cl_w_off(c) as i64 }) }
    else if f3 == 7 { Some(Instruction::Sd { rs1: rs1p, rs2: rdp, imm: cl_d_off(c) as i64 }) }
    else { None }
}

/// Quadrant 1, funct3 = 100: shifts, ANDI and register-register arithmetic on x8..x15.
pub open spec fn decode_c1_alu(c: u16) -> Option<Instruction> {
    let r = c as u64;
    let f2 = (r >> 10) & 3;
    let rd = c_rs1p(c);
    if f2 == 0 { Some(Instruction::Srli { rd, rs1: rd, shamt: ci_field(c) as u32 }) }
    else if f2 == 1 { Some(Instruction::Srai { rd, rs1: rd, shamt: ci_field(c) as u32 }) }
    else if f2 == 2 { Some(Instruction::Andi { rd, rs1: rd, imm: ci_imm(c) }) }
    else {
        let op = (r >> 5) & 3;
        let rs2 = c_rs2p(c);
        if (r >> 12) & 1 == 0 {
            if op == 0 { Some(Instruction::Sub { rd, rs1: rd, rs2 }) }
            else if op == 1 { Some(Instruction::Xor { rd, rs1: rd, rs2 }) }
            else if op == 2 { Some(Instruction::Or { rd, rs1: rd, rs2 }) }
            else { Some(Instruction::And { rd, rs1: rd, rs2 }) }
        } else {
            if op == 0 { Some(Instruction::Subw { rd, rs1: rd, rs2 }) }
            else if op == 1 { Some(Instruction::Addw { rd, rs1: rd, rs2 }) }
            else { None }
        }
    }
}

/// Quadrant 1: immediates, jumps and branches.
pub open spec fn decode_c1(c: u16) -> Option<Instruction> {
    let f3 = ((c as u64) >> 13) & 7;
    let rd = c_rd(c);
    if f3 == 0 { Some(Instruction::Addi { rd, rs1: rd, imm: ci_imm(c) }) }
    else if f3 == 1 { if rd == 0 { None } else { Some(Instruction::Addiw { rd, rs1: rd, imm: ci_imm(c) }) } }
    else if f3 == 2 { Some(Instruction::Addi { rd, rs1: 0, imm: ci_imm(c) }) }
    else if f3 == 3 {
        if rd == 2 {
            let n = sign_ext_spec(addi16sp_field(c), 10);
            if n == 0 { None } else { Some(Instruction::Addi { rd: 2, rs1: 2, imm: n as i64 }) }
        } else if ci_field(c) == 0 {
            None
        } else {
            Some(Instruction::Lui { rd, imm: (ci_imm(c) * 4096) as i64 })
        }
    }
    else if f3 == 4 { decode_c1_alu(c) }
    else if f3 == 5 { Some(Instruction::Jal { rd: 0, imm: sign_ext_spec(rvc_j_field(c), 12) as i64 }) }
    else if f3 == 6 { Some(Instruction::Beq { rs1: c_rs1p(c), rs2: 0, imm: sign_ext_spec(rvc_b_field(c), 9) as i64 }) }
    else { Some(Instruction::Bne { rs1: c_rs1p(c), rs2: 0, imm: sign_ext_spec(rvc_b_field(c), 9) as i64 }) }
}

/// Quadrant 2: shifts, stack-pointer-relative loads and stores, jumps and moves.
pub open spec fn decode_c2(c: u16) -> Option<Instruction> {
    let r = c as u64;
    let f3 = (r >> 13) & 7;
    let (rd, rs2) = (c_rd(c), c_rs2(c));
    if f3 == 0 { Some(Instruction::Slli { rd, rs1: rd, shamt: ci_field(c) as u32 }) }
    else if f3 == 1 { Some(Instruction::Fld { fd: rd, rs1: 2, imm: ldsp_off(c) as i64 }) }
    else if f3 == 2 { if rd == 0 { None } else { Some(Instruction::Lw { rd, rs1: 2, imm: lwsp_off(c) as i64 }) } }
    else if f3 == 3 { if rd == 0 { None } else { Some(Instruction::Ld { rd, rs1: 2, imm: ldsp_off(c) as i64 }) } }
    else if f3 == 4 {
        if (r >> 12) & 1 == 0 {
            if rs2 == 0 {
                if rd == 0 { None } else { Some(Instruction::Jalr { rd: 0, rs1: rd, imm: 0 }) }
            } else {
                Some(Instruction::Add { rd, rs1: 0, rs2 })
            }
        } else if rs2 == 0 {
            if rd == 0 { Some(Instruction::Ebreak) } else { Some(Instruction::Jalr { rd: 1, rs1: rd, imm: 0 }) }
        } else {
            Some(Instruction::Add { rd, rs1: rd, rs2 })
        }
    }
    else if f3 == 5 { Some(Instruction::Fsd { rs1: 2, fs2: rs2, imm: sdsp_off(c) as i64 }) }
    else if f3 == 6 { Some(Instruction::Sw { rs1: 2, rs2, imm: swsp_off(c) as i64 }) }
    else { Some(Instruction::Sd { rs1: 2, rs2, imm: sdsp_off(c) as i64 }) }
}

/// The instruction that the 16-bit compressed word `c` stands for, if any
/// (quadrant 3 is not a compressed encoding).
pub open spec fn decode_rvc_spec(c: u16) -> Option<Instruction> {
    let q = (c as u64) & 3;
    if q == 0 { decode_c0(c) } else if q == 1 { decode_c1(c) } else if q == 2 { decode_c2(c) } else { None }
}

/// The 32-bit instruction that a quadrant-1 register operation expands to,
/// per the RVC table, with rd' = x8 + inst[9:7] and rs2' = x8 + inst[4:2]:
/// C.SRLI / C.SRAI (inst[11:10] = 00 / 01) are `srli` / `srai rd', rd', shamt`
/// with shamt = inst[12] ++ inst[6:2]; with inst[11:10] = 11, C.SUB, C.XOR,
/// C.OR, C.AND (inst[12] = 0, inst[6:5] = 00..11) are `sub`, `xor`, `or`, `and
/// rd', rd', rs2'`, and C.SUBW, C.ADDW (inst[12] = 1, inst[6:5] = 00, 01) are
/// `subw`, `addw rd', rd', rs2'`.
pub open spec fn c_alu_expansion(c: u16) -> u32 {
    let r = c as u32;
    let rdp: u32 = ((r >> 7) & 7) | 8u32;
    if (r >> 10) & 3 != 3 {
        let shamt: u32 = (((r >> 12) & 1) << 5) | ((r >> 2) & 0x1f);
        (((r >> 10) & 1) << 30) | (shamt << 20) | (rdp << 15) | (5u32 << 12) | (rdp << 7) | 0x13u32
    } else {
        let rs2p: u32 = ((r >> 2) & 7) | 8u32;
        let op: u32 = (r >> 5) & 3;
        let word: bool = (r >> 12) & 1 == 1;
        let f7: u32 = if op == 0 { 0x20u32 } else { 0u32 };
        let f3: u32 = if word || op == 0 { 0u32 } else if op == 1 { 4u32 } else if op == 2 { 6u32 } else { 7u32 };
        let opcode: u32 = if word { 0x3Bu32 } else { 0x33u32 };
        (f7 << 25) | (rs2p << 20) | (rdp << 15) | (f3 << 12) | (rdp << 7) | opcode
    }
}

proof fn lemma_c_alu_fields(c: u16)
    by (bit_vector)
    ensures
        ((c_alu_expansion(c) >> 7) & 0x1f) as u64 == (((c as u64) >> 7) & 7) + 8,
        ((c_alu_expansion(c) >> 15) & 0x1f) as u64 == (((c as u64) >> 7) & 7) + 8,
        ((c as u64) >> 10) & 3 != 3 ==> {
            &&& c_alu_expansion(c) & 0x7f == 0x13
            &&& (c_alu_expansion(c) >> 12) & 0x7 == 5
            &&& ((c_alu_expansion(c) >> 20) & 0x3f) as u64 == ((((c as u64) >> 12) & 1) << 5 | (((c as u64) >> 2) & 0x1f))
            &&& ((c_alu_expansion(c) >> 30) & 1) as u64 == ((c as u64) >> 10) & 1
        },
        ((c as u64) >> 10) & 3 == 3 ==> {
            &&& ((c_alu_expansion(c) >> 20) & 0x1f) as u64 == (((c as u64) >> 2) & 7) + 8
            &&& c_alu_expansion(c) & 0x7f == (if ((c as u64) >> 12) & 1 == 1 { 0x3Bu32 } else { 0x33u32 })
            &&& (c_alu_expansion(c) >> 25) & 0x7f == (if ((c as u64) >> 5) & 3 == 0 { 0x20u32 } else { 0u32 })
            &&& (c_alu_expansion(c) >> 12) & 0x7 == (if ((c as u64) >> 12) & 1 == 1 || ((c as u64) >> 5) & 3 == 0 { 0u32 }
                else if ((c as u64) >> 5) & 3 == 1 { 4u32 } else if ((c as u64) >> 5) & 3 == 2 { 6u32 } else { 7u32 })
        },
{
}

/// The quadrant-1 register operations decode as the 32-bit instructions they
/// expand to (see `c_alu_expansion`): in particular inst[11:10] = 00 is the
/// logical shift C.SRLI and 01 the arithmetic shift C.SRAI.
pub proof fn lemma_c_alu_expands(c: u16)
    requires
        c & 3 == 1,
        (c >> 13) & 7 == 4,
        (c >> 10) & 3 != 2,
        (c >> 10) & 3 == 3 && (c >> 12) & 1 == 1 ==> (c >> 5) & 3 < 2,
    ensures
        decode_rvc_spec(c) == decode_spec(c_alu_expansion(c)),
        (c >> 10) & 3 == 0 ==> decode_rvc_spec(c) matches Some(Instruction::Srli { .. }),
        (c >> 10) & 3 == 1 ==> decode_rvc_spec(c) matches Some(Instruction::Srai { .. }),
{
    lemma_c_alu_fields(c);
    assert((c as u64) & 3 == 1 && ((c as u64) >> 13) & 7 == 4
        && ((c as u64) >> 10) & 3 == ((c >> 10) & 3) as u64
        && ((c as u64) >> 12) & 1 == ((c >> 12) & 1) as u64
        && ((c as u64) >> 5) & 3 == ((c >> 5) & 3) as u64
        && (((c as u64) >> 10) & 3 < 4)
        && (((c as u64) >> 5) & 3 < 4)
        && (((c as u64) >> 12) & 1 < 2)
        && ((((c as u64) >> 10) & 3 == 0) ==> ((c as u64) >> 10) & 1 == 0)
        && ((((c as u64) >> 10) & 3 == 1) ==> ((c as u64) >> 10) & 1 == 1)) by (bit_vector)
        requires
            c & 3 == 1,
            (c >> 13) & 7 == 4,
    ;
    let w = c_alu_expansion(c);
    let r = c as u64;
    assert(decode_rvc_spec(c) == decode_c1(c));
    assert(decode_c1(c) == decode_c1_alu(c));
    assert(rd_of(w) == c_rs1p(c) && rs1_of(w) == c_rs1p(c));
    if (r >> 10) & 3 != 3 {
        assert(opcode(w) == 0x13 && funct3(w) == 5);
        assert(decode_spec(w) == decode_op_imm(w));
        assert(((w >> 20) & 0x3f) == ci_field(c) as u32);
        if (r >> 10) & 3 == 0 {
            assert((w >> 30) & 1 == 0);
            assert(decode_c1_alu(c) == decode_spec(w));
        } else {
            assert((w >> 30) & 1 == 1);
            assert(decode_c1_alu(c) == decode_spec(w));
        }
    } else {
        assert(rs2_of(w) == c_rs2p(c));
        let op = (r >> 5) & 3;
        if (r >> 12) & 1 == 1 {
            assert(opcode(w) == 0x3B && funct3(w) == 0);
            assert(decode_spec(w) == decode_op32(w));
            if op == 0 { assert(funct7(w) == 0x20); } else { assert(funct7(w) == 0); }
            assert(decode_c1_alu(c) == decode_spec(w));
        } else {
            assert(opcode(w) == 0x33);
            assert(decode_spec(w) == decode_op(w));
            if op == 0 {
                assert(funct7(w) == 0x20 && funct3(w) == 0);
            } else if op == 1 {
                assert(funct7(w) == 0 && funct3(w) == 4);
            } else if op == 2 {
                assert(funct7(w) == 0 && funct3(w) == 6);
            } else {
                assert(funct7(w) == 0 && funct3(w) == 7);
            }
            assert(decode_c1_alu(c) == decode_spec(w));
        }
    }
}

/// Ranges of the fields of a compressed instruction.
proof fn lemma_c_fields(r: u64)
    by (bit_vector)
    ensures
        (r >> 7) & 0x1f < 32,
        (r >> 2) & 0x1f < 32,
        (r >> 7) & 7 < 8,
        (r >> 2) & 7 < 8,
        ((r >> 12) & 1) << 5 | ((r >> 2) & 0x1f) < 64,
{
}

/// Every compressed instruction decodes to a well-formed one.
pub proof fn lemma_decode_rvc_wf(c: u16)
    ensures
        decode_rvc_spec(c) matches Some(ins) ==> inst_wf(ins),
{
    lemma_c_fields(c as u64);
}

fn c_field_rd(c: u16) -> (r: usize)
    ensures
        r == c_rd(c),
        r < 32,
{
    proof { lemma_c_fields(c as u64); }
    (((c as u64) >> 7) & 0x1f) as usize
}

fn c_field_rs2(c: u16) -> (r: usize)
    ensures
        r == c_rs2(c),
        r < 32,
{
    proof { lemma_c_fields(c as u64); }
    (((c as u64) >> 2) & 0x1f) as usize
}

fn c_field_rs1p(c: u16) -> (r: usize)
    ensures
        r == c_rs1p(c),
        8 <= r < 16,
{
    proof { lemma_c_fields(c as u64); }
    ((((c as u64) >> 7) & 7) + 8) as usize
}

fn c_field_rs2p(c: u16) -> (r: usize)
    ensures
        r == c_rs2p(c),
        8 <= r < 16,
{
    proof { lemma_c_fields(c as u64); }
    ((((c as u64) >> 2) & 7) + 8) as usize
}

fn c_ci_field(c: u16) -> (r: u64)
    ensures
        r == ci_field(c),
        r < 64,
{
    proof { lemma_c_fields(c as u64); }
    let r = c as u64;
    ((r >> 12) & 1) << 5 | ((r >> 2) & 0x1f)
}

/// The sign-extended CI immediate, in [-32, 32).
fn c_ci_imm(c: u16) -> (r: i64)
    ensures
        r == ci_imm(c),
        -32 <= r < 32,
{
    let f = c_ci_field(c);
    let v = sign_ext(f, 6);
    proof {
        vstd::arithmetic::power2::lemma2_to64();
        assert(f as int % 64 == f);
    }
    v
}

fn dec_c0(c: u16) -> (r: Option<Instruction>)
    ensures
        r == decode_c0(c),
{
    let x = c as u64;
    let f3: u64 = (x >> 13) & 7;
    let rdp = c_field_rs2p(c);
    let rs1p = c_field_rs1p(c);
    let dw: u64 = ((x >> 10) & 7) << 3 | ((x >> 5) & 3) << 6;
    let w: u64 = ((x >> 10) & 7) << 3 | ((x >> 6) & 1) << 2 | ((x >> 5) & 1) << 6;
    if f3 == 0 {
        let u: u64 = ((x >> 11) & 3) << 4 | ((x >> 7) & 0xf) << 6 | ((x >> 6) & 1) << 2 | ((x >> 5) & 1) << 3;
        if u == 0 { None } else { Some(Instruction::Addi { rd: rdp, rs1: 2, imm: u as i64 }) }
    } else if f3 == 1 { Some(Instruction::Fld { fd: rdp, rs1: rs1p, imm: dw as i64 }) }
    else if f3 == 2 { Some(Instruction::Lw { rd: rdp, rs1: rs1p, imm: w as i64 }) }
    else if f3 == 3 { Some(Instruction::Ld { rd: rdp, rs1: rs1p, imm: dw as i64 }) }
    else if f3 == 5 { Some(Instruction::Fsd { rs1: rs1p, fs2: rdp, imm: dw as i64 }) }
    else if f3 == 6 { Some(Instruction::Sw { rs1: rs1p, rs2: rdp, imm: w as i64 }) }
    else if f3 == 7 { Some(Instruction::Sd { rs1: rs1p, rs2: rdp, imm: dw as i64 }) }
    else { None }
}

fn dec_c1_alu(c: u16) -> (r: Option<Instruction>)
    ensures
        r == decode_c1_alu(c),
{
    let x = c as u64;
    let f2: u64 = (x >> 10) & 3;
    let rd = c_field_rs1p(c);
    if f2 == 0 { Some(Instruction::Srli { rd, rs1: rd, shamt: c_ci_field(c) as u32 }) }
    else if f2 == 1 { Some(Instruction::Srai { rd, rs1: rd, shamt: c_ci_field(c) as u32 }) }
    else if f2 == 2 { Some(Instruction::Andi { rd, rs1: rd, imm: c_ci_imm(c) }) }
    else {
        let op: u64 = (x >> 5) & 3;
        let rs2 = c_field_rs2p(c);
        if (x >> 12) & 1 == 0 {
            if op == 0 { Some(Instruction::Sub { rd, rs1: rd, rs2 }) }
            else if op == 1 { Some(Instruction::Xor { rd, rs1: rd, rs2 }) }
            else if op == 2 { Some(Instruction::Or { rd, rs1: rd, rs2 }) }
            else { Some(Instruction::And { rd, rs1: rd, rs2 }) }
        } else {
            if op == 0 { Some(Instruction::Subw { rd, rs1: rd, rs2 }) }
            else if op == 1 { Some(Instruction::Addw { rd, rs1: rd, rs2 }) }
            else { None }
        }
    }
}

fn dec_c1(c: u16) -> (r: Option<Instruction>)
    ensures
        r == decode_c1(c),
{
    let x = c as u64;
    let f3: u64 = (x >> 13) & 7;
    let rd = c_field_rd(c);
    if f3 == 0 { Some(Instruction::Addi { rd, rs1: rd, imm: c_ci_imm(c) }) }
    else if f3 == 1 { if rd == 0 { None } else { Some(Instruction::Addiw { rd, rs1: rd, imm: c_ci_imm(c) }) } }
    else if f3 == 2 { Some(Instruction::Addi { rd, rs1: 0, imm: c_ci_imm(c) }) }
    else if f3 == 3 {
        if rd == 2 {
            let fld: u64 = ((x >> 12) & 1) << 9 | ((x >> 3) & 3) << 7 | ((x >> 5) & 1) << 6 | ((x >> 2) & 1) << 5 | ((x >> 6) & 1) << 4;
            let n = sign_ext(fld, 10);
            if n == 0 { None } else { Some(Instruction::Addi { rd: 2, rs1: 2, imm: n }) }
        } else if c_ci_field(c) == 0 {
            None
        } else {
            let v = c_ci_imm(c);
            Some(Instruction::Lui { rd, imm: v * 4096 })
        }
    }
    else if f3 == 4 { dec_c1_alu(c) }
    else if f3 == 5 { Some(Instruction::Jal { rd: 0, imm: rvc_j_imm(c) }) }
    else if f3 == 6 { Some(Instruction::Beq { rs1: c_field_rs1p(c), rs2: 0, imm: rvc_b_imm(c) }) }
    else { Some(Instruction::Bne { rs1: c_field_rs1p(c), rs2: 0, imm: rvc_b_imm(c) }) }
}

fn dec_c2(c: u16) -> (r: Option<Instruction>)
    ensures
        r == decode_c2(c),
{
    let x = c as u64;
    let f3: u64 = (x >> 13) & 7;
    let rd = c_field_rd(c);
    let rs2 = c_field_rs2(c);
    let ld: u64 = ((x >> 12) & 1) << 5 | ((x >> 5) & 3) << 3 | ((x >> 2) & 7) << 6;
    let sd: u64 = ((x >> 10) & 7) << 3 | ((x >> 7) & 7) << 6;
    if f3 == 0 { Some(Instruction::Slli { rd, rs1: rd, shamt: c_ci_field(c) as u32 }) }
    else if f3 == 1 { Some(Instruction::Fld { fd: rd, rs1: 2, imm: ld as i64 }) }
    else if f3 == 2 {
        let lw: u64 = ((x >> 12) & 1) << 5 | ((x >> 4) & 7) << 2 | ((x >> 2) & 3) << 6;
        if rd == 0 { None } else { Some(Instruction::Lw { rd, rs1: 2, imm: lw as i64 }) }
    }
    else if f3 == 3 { if rd == 0 { None } else { Some(Instruction::Ld { rd, rs1: 2, imm: ld as i64 }) } }
    else if f3 == 4 {
        if (x >> 12) & 1 == 0 {
            if rs2 == 0 {
                if rd == 0 { None } else { Some(Instruction::Jalr { rd: 0, rs1: rd, imm: 0 }) }
            } else {
                Some(Instruction::Add { rd, rs1: 0, rs2 })
            }
        } else if rs2 == 0 {
            if rd == 0 { Some(Instruction::Ebreak) } else { Some(Instruction::Jalr { rd: 1, rs1: rd, imm: 0 }) }
        } else {
            Some(Instruction::Add { rd, rs1: rd, rs2 })
        }
    }
    else if f3 == 5 { Some(Instruction::Fsd { rs1: 2, fs2: rs2, imm: sd as i64 }) }
    else if f3 == 6 {
        let sw: u64 = ((x >> 9) & 0xf) << 2 | ((x >> 7) & 3) << 6;
        Some(Instruction::Sw { rs1: 2, rs2, imm: sw as i64 })
    }
    else { Some(Instruction::Sd { rs1: 2, rs2, imm: sd as i64 }) }
}

/// Decode a 16-bit compressed instruction into the instruction it stands for.
/// Reserved encodings (and quadrant 3, which is not compressed) are illegal
/// instructions carrying the raw bits.
pub fn decode_rvc(c: u16) -> (r: Result<Instruction, IllegalInstruction>)
    ensures
        r is Err <==> decode_rvc_spec(c) is None,
        r matches Ok(ins) ==> decode_rvc_spec(c) == Some(ins) && inst_wf(ins),
        r matches Err(e) ==> e.raw == c as u32,
{
    proof { lemma_decode_rvc_wf(c); }
    let q: u64 = (c as u64) & 3;
    let d = if q == 0 { dec_c0(c) } else if q == 1 { dec_c1(c) } else if q == 2 { dec_c2(c) } else { None };
    match d {
        Some(i) => Ok(i),
        None => Err(IllegalInstruction { raw: c as u32 }),
    }
}

} // verus!
