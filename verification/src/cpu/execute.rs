use vstd::prelude::*;
use crate::cpu::{Cpu, Hart, PrivMode, xreg, set_xreg, trap_spec, trap_delegated, priv_bits, mode_of_bits, phys_load, phys_store};
use crate::cpu::csr::{Csr, bit};
use crate::cpu::decode::{Instruction, inst_wf};
use crate::cpu::mmu::{AccessType, MmuFault, TlbEntry, translate_spec, lemma_translate_passthrough};

verus! {

/// An instruction that the interpreter leaves to its caller: floating-point
/// arithmetic (see `complete_fpu`).
#[derive(Debug, Clone, Copy, PartialEq, Eq, Structural)]
pub struct ExecError {
    pub pc: u64,
    pub inst: Instruction,
}

/// Sign-extend `v` from bit `b` (7, 15 or 31).
pub open spec fn sext_spec(v: u64, b: u64) -> u64 {
    let mask: u64 = if b == 7 { 0xFF } else if b == 15 { 0xFFFF } else { 0xFFFF_FFFF };
    if (v >> b) & 1 == 1 { v | !mask } else { v & mask }
}

pub open spec fn sext32(v: u64) -> u64 {
    sext_spec(v, 31)
}

/// Division truncated toward zero.
pub open spec fn tdiv(a: int, b: int) -> int {
    let q = (if a >= 0 { a } else { -a }) / (if b >= 0 { b } else { -b });
    if (a >= 0) == (b > 0) { q } else { -q }
}

/// Remainder of division truncated toward zero (its sign follows the dividend).
pub open spec fn trem(a: int, b: int) -> int {
    let r = (if a >= 0 { a } else { -a }) % (if b >= 0 { b } else { -b });
    if a >= 0 { r } else { -r }
}

/// Bits 127..64 of a 128-bit product.
pub open spec fn mul_hi(p: int) -> u64 {
    (p / 0x1_0000_0000_0000_0000int) as u64
}

/// Whether an instruction only computes a value for `rd` from registers, pc and immediates.
pub open spec fn is_alu(inst: Instruction) -> bool {
    match inst {
        Instruction::Add { .. } | Instruction::Sub { .. } | Instruction::Sll { .. } | Instruction::Slt { .. }
        | Instruction::Sltu { .. } | Instruction::Xor { .. } | Instruction::Srl { .. } | Instruction::Sra { .. }
        | Instruction::Or { .. } | Instruction::And { .. } | Instruction::Addw { .. } | Instruction::Subw { .. }
        | Instruction::Sllw { .. } | Instruction::Srlw { .. } | Instruction::Sraw { .. } | Instruction::Addi { .. }
        | Instruction::Slti { .. } | Instruction::Sltiu { .. } | Instruction::Xori { .. } | Instruction::Ori { .. }
        | Instruction::Andi { .. } | Instruction::Slli { .. } | Instruction::Srli { .. } | Instruction::Srai { .. }
        | Instruction::Addiw { .. } | Instruction::Slliw { .. } | Instruction::Srliw { .. } | Instruction::Sraiw { .. }
        | Instruction::Lui { .. } | Instruction::Auipc { .. } | Instruction::Mul { .. } | Instruction::Mulh { .. }
        | Instruction::Mulhsu { .. } | Instruction::Mulhu { .. } | Instruction::Div { .. } | Instruction::Divu { .. }
        | Instruction::Rem { .. } | Instruction::Remu { .. } | Instruction::Mulw { .. } | Instruction::Divw { .. }
        | Instruction::Divuw { .. } | Instruction::Remw { .. } | Instruction::Remuw { .. } => true,
        _ => false,
    }
}

/// Destination and source registers of an ALU instruction (0 where it has none).
pub open spec fn alu_regs(inst: Instruction) -> (usize, usize, usize) {
    match inst {
        Instruction::Add { rd, rs1, rs2 } | Instruction::Sub { rd, rs1, rs2 } | Instruction::Sll { rd, rs1, rs2 }
        | Instruction::Slt { rd, rs1, rs2 } | Instruction::Sltu { rd, rs1, rs2 } | Instruction::Xor { rd, rs1, rs2 }
        | Instruction::Srl { rd, rs1, rs2 } | Instruction::Sra { rd, rs1, rs2 } | Instruction::Or { rd, rs1, rs2 }
        | Instruction::And { rd, rs1, rs2 } | Instruction::Addw { rd, rs1, rs2 } | Instruction::Subw { rd, rs1, rs2 }
        | Instruction::Sllw { rd, rs1, rs2 } | Instruction::Srlw { rd, rs1, rs2 } | Instruction::Sraw { rd, rs1, rs2 }
        | Instruction::Mul { rd, rs1, rs2 } | Instruction::Mulh { rd, rs1, rs2 } | Instruction::Mulhsu { rd, rs1, rs2 }
        | Instruction::Mulhu { rd, rs1, rs2 } | Instruction::Div { rd, rs1, rs2 } | Instruction::Divu { rd, rs1, rs2 }
        | Instruction::Rem { rd, rs1, rs2 } | Instruction::Remu { rd, rs1, rs2 } | Instruction::Mulw { rd, rs1, rs2 }
        | Instruction::Divw { rd, rs1, rs2 } | Instruction::Divuw { rd, rs1, rs2 } | Instruction::Remw { rd, rs1, rs2 }
        | Instruction::Remuw { rd, rs1, rs2 } => (rd, rs1, rs2),
        Instruction::Addi { rd, rs1, .. } | Instruction::Slti { rd, rs1, .. } | Instruction::Sltiu { rd, rs1, .. }
        | Instruction::Xori { rd, rs1, .. } | Instruction::Ori { rd, rs1, .. } | Instruction::Andi { rd, rs1, .. }
        | Instruction::Slli { rd, rs1, .. } | Instruction::Srli { rd, rs1, .. } | Instruction::Srai { rd, rs1, .. }
        | Instruction::Addiw { rd, rs1, .. } | Instruction::Slliw { rd, rs1, .. } | Instruction::Srliw { rd, rs1, .. }
        | Instruction::Sraiw { rd, rs1, .. } => (rd, rs1, 0),
        Instruction::Lui { rd, .. } | Instruction::Auipc { rd, .. } => (rd, 0, 0),
        _ => (0, 0, 0),
    }
}

/// The value an ALU instruction writes to `rd`, given x[rs1] = `a`, x[rs2] = `b` and the pc.
#[verifier::opaque]
pub open spec fn alu_spec(inst: Instruction, a: u64, b: u64, pc: u64) -> u64 {
    match inst {
        Instruction::Add { .. } => a.wrapping_add(b),
        Instruction::Sub { .. } => a.wrapping_sub(b),
        Instruction::Sll { .. } => a << (b & 63),
        Instruction::Slt { .. } => if (a as i64) < (b as i64) { 1 } else { 0 },
        Instruction::Sltu { .. } => if a < b { 1 } else { 0 },
        Instruction::Xor { .. } => a ^ b,
        Instruction::Srl { .. } => a >> (b & 63),
        Instruction::Sra { .. } => ((a as i64) >> (b & 63)) as u64,
        Instruction::Or { .. } => a | b,
        Instruction::And { .. } => a & b,
        Instruction::Addw { .. } => sext32(a.wrapping_add(b)),
        Instruction::Subw { .. } => sext32(a.wrapping_sub(b)),
        Instruction::Sllw { .. } => sext32(a << (b & 31)),
        Instruction::Srlw { .. } => sext32(((a as u32) >> ((b & 31) as u32)) as u64),
        Instruction::Sraw { .. } => sext32(((a as i32) >> ((b & 31) as u32)) as u64),
        Instruction::Addi { imm, .. } => a.wrapping_add(imm as u64),
        Instruction::Slti { imm, .. } => if (a as i64) < imm { 1 } else { 0 },
        Instruction::Sltiu { imm, .. } => if a < (imm as u64) { 1 } else { 0 },
        Instruction::Xori { imm, .. } => a ^ (imm as u64),
        Instruction::Ori { imm, .. } => a | (imm as u64),
        Instruction::Andi { imm, .. } => a & (imm as u64),
        Instruction::Slli { shamt, .. } => a << shamt,
        Instruction::Srli { shamt, .. } => a >> shamt,
        Instruction::Srai { shamt, .. } => ((a as i64) >> shamt) as u64,
        Instruction::Addiw { imm, .. } => sext32(a.wrapping_add(imm as u64)),
        Instruction::Slliw { shamt, .. } => sext32(a << shamt),
        Instruction::Srliw { shamt, .. } => sext32(((a as u32) >> shamt) as u64),
        Instruction::Sraiw { shamt, .. } => sext32(((a as i32) >> shamt) as u64),
        Instruction::Lui { imm, .. } => imm as u64,
        Instruction::Auipc { imm, .. } => pc.wrapping_add(imm as u64),
        Instruction::Mul { .. } => ((a as i64) * (b as i64)) as u64,
        Instruction::Mulh { .. } => mul_hi((a as i64) * (b as i64)),
        Instruction::Mulhsu { .. } => mul_hi((a as i64) * (b as int)),
        Instruction::Mulhu { .. } => mul_hi((a as int) * (b as int)),
        Instruction::Div { .. } => {
            let (x, y) = (a as i64, b as i64);
            if y == 0 { u64::MAX } else if x == i64::MIN && y == -1 { x as u64 } else { tdiv(x as int, y as int) as u64 }
        },
        Instruction::Divu { .. } => if b == 0 { u64::MAX } else { a / b },
        Instruction::Rem { .. } => {
            let (x, y) = (a as i64, b as i64);
            if y == 0 { x as u64 } else if x == i64::MIN && y == -1 { 0 } else { trem(x as int, y as int) as u64 }
        },
        Instruction::Remu { .. } => if b == 0 { a } else { a % b },
        Instruction::Mulw { .. } => sext32(((a as i32).wrapping_mul(b as i32)) as u64),
        Instruction::Divw { .. } => {
            let (x, y) = (a as i32, b as i32);
            if y == 0 { u64::MAX } else if x == i32::MIN && y == -1 { sext32(x as u64) } else { sext32(tdiv(x as int, y as int) as u64) }
        },
        Instruction::Divuw { .. } => {
            let (x, y) = (a as u32, b as u32);
            if y == 0 { u64::MAX } else { sext32((x / y) as u64) }
        },
        Instruction::Remw { .. } => {
            let (x, y) = (a as i32, b as i32);
            if y == 0 { sext32(x as u64) } else if x == i32::MIN && y == -1 { 0 } else { sext32(trem(x as int, y as int) as u64) }
        },
        Instruction::Remuw { .. } => {
            let (x, y) = (a as u32, b as u32);
            if y == 0 { sext32(x as u64) } else { sext32((x % y) as u64) }
        },
        _ => 0,
    }
}

/// The pc of the next sequential instruction.
pub open spec fn next_pc(h: Hart) -> u64 {
    h.pc.wrapping_add(h.inst_size)
}

/// The privilege that loads and stores use: MPP when mstatus.MPRV is set.
pub open spec fn ls_mode(h: Hart) -> PrivMode {
    if bit(h.csr.mstatus, 17) == 1 { mode_of_bits((h.csr.mstatus >> 11) & 3) } else { h.mode }
}

/// Translating a data address: the result and the hart with its TLB and RAM after the walk.
pub open spec fn data_translate(h: Hart, va: u64, access: AccessType) -> (Result<u64, MmuFault>, Hart) {
    let (r, tlb2, mem2) = translate_spec(h.tlb, h.mem, h.base, h.csr.satp, ls_mode(h), h.csr.mstatus, va, access);
    (r, Hart { tlb: tlb2, mem: mem2, ..h })
}

/// A loaded value of `width` bytes, sign-extended when `signed`.
pub open spec fn load_ext(raw: u64, width: usize, signed: bool) -> u64 {
    if !signed || width == 8 { raw } else if width == 1 { sext_spec(raw, 7) } else if width == 2 { sext_spec(raw, 15) } else { sext32(raw) }
}

#[verifier::opaque]
pub open spec fn load_step(h: Hart, rd: usize, va: u64, width: usize, signed: bool) -> Hart {
    let (r, h2) = data_translate(h, va, AccessType::Load);
    match r {
        Err(f) => trap_spec(h2, f.cause, f.tval),
        Ok(pa) => match phys_load(h2, pa, width) {
            (None, _) => trap_spec(h2, 5, va),
            (Some(raw), h3) => Hart { regs: set_xreg(h3.regs, rd, load_ext(raw, width, signed)), pc: next_pc(h), ..h3 },
        },
    }
}

#[verifier::opaque]
pub open spec fn store_step(h: Hart, va: u64, width: usize, value: u64) -> Hart {
    let (r, h2) = data_translate(h, va, AccessType::Store);
    match r {
        Err(f) => trap_spec(h2, f.cause, f.tval),
        Ok(pa) => match phys_store(h2, pa, width, value) {
            None => trap_spec(h2, 7, va),
            Some(h3) => Hart { pc: next_pc(h), ..h3 },
        },
    }
}

/// LR: load and reserve the physical address.
#[verifier::opaque]
pub open spec fn lr_step(h: Hart, rd: usize, va: u64, width: usize) -> Hart {
    let (r, h2) = data_translate(h, va, AccessType::Load);
    match r {
        Err(f) => trap_spec(h2, f.cause, f.tval),
        Ok(pa) => match phys_load(h2, pa, width) {
            (None, _) => trap_spec(h2, 5, va),
            (Some(raw), h3) => Hart {
                regs: set_xreg(h3.regs, rd, load_ext(raw, width, true)),
                reservation: Some(pa),
                pc: next_pc(h),
                ..h3
            },
        },
    }
}

/// SC: store and write 0 to rd when the reservation holds the address, else write 1;
/// the reservation is dropped either way.
#[verifier::opaque]
pub open spec fn sc_step(h: Hart, rd: usize, va: u64, width: usize, value: u64) -> Hart {
    let (r, h2) = data_translate(h, va, AccessType::Store);
    match r {
        Err(f) => trap_spec(h2, f.cause, f.tval),
        Ok(pa) => {
            if h2.reservation == Some(pa) {
                let h3 = match phys_store(h2, pa, width, value) { Some(h3) => h3, None => h2 };
                Hart { regs: set_xreg(h3.regs, rd, 0), reservation: None, pc: next_pc(h), ..h3 }
            } else {
                Hart { regs: set_xreg(h2.regs, rd, 1), reservation: None, pc: next_pc(h), ..h2 }
            }
        },
    }
}

/// With no translation (M-mode, mstatus.MPRV clear), an LR that reads its
/// address followed by an SC to the same address succeeds: the SC writes 0 to
/// its rd and stores its value, and the reservation is used up.
pub proof fn lemma_lr_then_sc(h: Hart, rd: usize, rd2: usize, va: u64, width: usize, value: u64)
    requires
        h.mode == PrivMode::M,
        bit(h.csr.mstatus, 17) == 0,
        phys_load(h, va, width).0 is Some,
        h.regs.len() == 32,
        rd < 32,
        rd2 < 32,
    ensures
        ({
            let h1 = lr_step(h, rd, va, width);
            let h2 = sc_step(h1, rd2, va, width, value);
            &&& h1.reservation == Some(va)
            &&& h2.reservation is None
            &&& xreg(h2, rd2) == 0
            &&& h2.mem == (match phys_store(h1, va, width, value) { Some(h3) => h3.mem, None => h1.mem })
        }),
{
    reveal(lr_step);
    reveal(sc_step);
    lemma_translate_passthrough(h.tlb, h.mem, h.base, h.csr.satp, PrivMode::M, h.csr.mstatus, va, AccessType::Load);
    let h1 = lr_step(h, rd, va, width);
    lemma_translate_passthrough(h1.tlb, h1.mem, h1.base, h1.csr.satp, PrivMode::M, h1.csr.mstatus, va, AccessType::Store);
}

/// The read-modify-write operation of an AMO.
#[derive(Debug, Clone, Copy, PartialEq, Eq, Structural)]
pub enum AmoOp {
    Swap,
    Add,
    Xor,
    And,
    Or,
    Min,
    Max,
    Minu,
    Maxu,
}

/// The value an AMO stores, from the prev memory value (sign-extended for words) and x[rs2].
pub open spec fn amo_value(op: AmoOp, prev: u64, src: u64, width: usize) -> u64 {
    match op {
        AmoOp::Swap => src,
        AmoOp::Add => prev.wrapping_add(src),
        AmoOp::Xor => prev ^ src,
        AmoOp::And => prev & src,
        AmoOp::Or => prev | src,
        AmoOp::Min => if width == 8 {
            if (prev as i64) < (src as i64) { prev } else { src }
        } else {
            if (prev as i32) < (src as i32) { prev } else { sext32(src) }
        },
        AmoOp::Max => if width == 8 {
            if (prev as i64) > (src as i64) { prev } else { src }
        } else {
            if (prev as i32) > (src as i32) { prev } else { sext32(src) }
        },
        AmoOp::Minu => if width == 8 {
            if prev < src { prev } else { src }
        } else {
            if (prev as u32) < (src as u32) { prev } else { (src as u32) as u64 }
        },
        AmoOp::Maxu => if width == 8 {
            if prev > src { prev } else { src }
        } else {
            if (prev as u32) > (src as u32) { prev } else { (src as u32) as u64 }
        },
    }
}

/// Casts that the word-sized AMOs rely on: a sign-extended word and a
/// zero-extended word keep the low word.
proof fn lemma_amo_word_bits(s: u64)
    by (bit_vector)
    ensures
        sext32(s) as i32 == s as i32,
        sext32(s) as u32 == s as u32,
        ((s as u32) as u64) as u32 == s as u32,
        ((s as u32) as u64) as i32 == s as i32,
{
}

/// What the AMOs store, given the value `p` read from memory (a word
/// sign-extended) and x[rs2] = `s`: AMOSWAP stores `s`; AMOADD the sum modulo
/// 2^64; AMOMAX/AMOMIN the signed maximum/minimum and AMOMAXU/AMOMINU the
/// unsigned ones, each one of the two operands and ordered against both. For
/// words (width 4) this holds of the low 32 bits, which are what is stored.
pub proof fn lemma_amo_values(p: u64, s: u64)
    ensures
        amo_value(AmoOp::Swap, p, s, 8) == s,
        amo_value(AmoOp::Add, p, s, 8) as int == (p as int + s as int) % 0x1_0000_0000_0000_0000int,
        ({
            let v = amo_value(AmoOp::Max, p, s, 8);
            (v == p || v == s) && v as i64 >= p as i64 && v as i64 >= s as i64
        }),
        ({
            let v = amo_value(AmoOp::Min, p, s, 8);
            (v == p || v == s) && v as i64 <= p as i64 && v as i64 <= s as i64
        }),
        ({
            let v = amo_value(AmoOp::Maxu, p, s, 8);
            (v == p || v == s) && v >= p && v >= s
        }),
        ({
            let v = amo_value(AmoOp::Minu, p, s, 8);
            (v == p || v == s) && v <= p && v <= s
        }),
        ({
            let v = amo_value(AmoOp::Max, p, s, 4);
            (v as i32 == p as i32 || v as i32 == s as i32) && v as i32 >= p as i32 && v as i32 >= s as i32
        }),
        ({
            let v = amo_value(AmoOp::Min, p, s, 4);
            (v as i32 == p as i32 || v as i32 == s as i32) && v as i32 <= p as i32 && v as i32 <= s as i32
        }),
        ({
            let v = amo_value(AmoOp::Maxu, p, s, 4);
            (v as u32 == p as u32 || v as u32 == s as u32) && v as u32 >= p as u32 && v as u32 >= s as u32
        }),
        ({
            let v = amo_value(AmoOp::Minu, p, s, 4);
            (v as u32 == p as u32 || v as u32 == s as u32) && v as u32 <= p as u32 && v as u32 <= s as u32
        }),
{
    lemma_amo_word_bits(s);
}

/// AMO: read the prev value through the bus (0 if the physical address hits
/// nothing), store the combined value (dropped if it hits nothing), write the
/// prev value to rd.
#[verifier::opaque]
pub open spec fn amo_step(h: Hart, op: AmoOp, rd: usize, va: u64, width: usize, src: u64) -> Hart {
    let (r, h2) = data_translate(h, va, AccessType::Store);
    match r {
        Err(f) => trap_spec(h2, f.cause, f.tval),
        Ok(pa) => {
            let (v, h3) = phys_load(h2, pa, width);
            let raw: u64 = match v { Some(x) => x, None => 0 };
            let prev = if width == 4 { sext32(raw) } else { raw };
            let h4 = match phys_store(h3, pa, width, amo_value(op, prev, src, width)) { Some(h4) => h4, None => h3 };
            Hart { regs: set_xreg(h4.regs, rd, prev), pc: next_pc(h), ..h4 }
        },
    }
}

/// A conditional branch to pc + imm; a taken branch to an odd address traps (cause 0).
#[verifier::opaque]
pub open spec fn branch_step(h: Hart, taken: bool, imm: i64) -> Hart {
    if taken {
        let t = h.pc.wrapping_add(imm as u64);
        if t & 1 != 0 { trap_spec(h, 0, t) } else { Hart { pc: t, ..h } }
    } else {
        Hart { pc: next_pc(h), ..h }
    }
}

/// A jump to `target` that links the next pc into rd.
#[verifier::opaque]
pub open spec fn jump_step(h: Hart, rd: usize, target: u64) -> Hart {
    if target & 1 != 0 {
        trap_spec(h, 0, target)
    } else {
        Hart { regs: set_xreg(h.regs, rd, next_pc(h)), pc: target, ..h }
    }
}

/// Every TLB entry invalidated.
pub open spec fn flushed(tlb: Seq<TlbEntry>) -> Seq<TlbEntry> {
    Seq::new(tlb.len(), |i: int| TlbEntry { valid: false, ..tlb[i] })
}

/// S-mode with mstatus.TVM set may not touch satp nor run SFENCE.VMA.
pub open spec fn tvm_trapped(h: Hart) -> bool {
    h.mode == PrivMode::S && bit(h.csr.mstatus, 20) != 0
}

/// A CSR instruction: `prev` goes to rd, `new_val` to the CSR when `write`;
/// a write to satp flushes the TLB and drops compiled code.
#[verifier::opaque]
pub open spec fn csr_step(h: Hart, rd: usize, csr: u16, prev: u64, write: bool, new_val: u64) -> Hart {
    if csr == 0x180 && tvm_trapped(h) {
        trap_spec(h, 2, 0)
    } else {
        let h2 = Hart {
            csr: if write { h.csr.write_spec(csr, new_val) } else { h.csr },
            regs: set_xreg(h.regs, rd, prev),
            pc: next_pc(h),
            ..h
        };
        if csr == 0x180 && write { Hart { tlb: flushed(h.tlb), jit_invalidate: true, ..h2 } } else { h2 }
    }
}

/// MRET: privilege <- MPP, MIE <- MPIE, MPIE <- 1, MPP <- U, MPRV cleared unless
/// returning to M, pc <- mepc.
#[verifier::opaque]
pub open spec fn mret_step(h: Hart) -> Hart {
    let mpp = (h.csr.mstatus >> 11) & 3;
    let m = Csr::mret_spec(h.csr.mstatus);
    let m2 = if mpp != 3 { m & !(1u64 << 17) } else { m };
    Hart { mode: mode_of_bits(mpp), csr: Csr { mstatus: m2, ..h.csr }, pc: h.csr.mepc, ..h }
}

/// SRET: illegal in S-mode with mstatus.TSR; else privilege <- SPP, MPRV cleared,
/// SIE <- SPIE, SPIE <- 1, SPP <- U, pc <- sepc.
#[verifier::opaque]
pub open spec fn sret_step(h: Hart) -> Hart {
    if h.mode == PrivMode::S && bit(h.csr.mstatus, 22) != 0 {
        trap_spec(h, 2, 0x10200073)
    } else {
        let spp = bit(h.csr.mstatus, 8);
        let m = Csr::s_ret_spec(h.csr.mstatus & !(1u64 << 17));
        Hart { mode: if spp == 1 { PrivMode::S } else { PrivMode::U }, csr: Csr { mstatus: m, ..h.csr }, pc: h.csr.sepc, ..h }
    }
}

/// A trap taken to M-mode followed by MRET returns to the trapping pc and
/// privilege level, with mstatus.MIE as it was before the trap.
pub proof fn lemma_trap_then_mret(h: Hart, cause: u64, tval: u64)
    requires
        !trap_delegated(h, cause),
    ensures
        mret_step(trap_spec(h, cause, tval)).pc == h.pc,
        mret_step(trap_spec(h, cause, tval)).mode == h.mode,
        bit(mret_step(trap_spec(h, cause, tval)).csr.mstatus, 3) == bit(h.csr.mstatus, 3),
{
    reveal(mret_step);
    let m = h.csr.mstatus;
    let p = priv_bits(h.mode);
    let t = (m & !0x1888u64) | (((m >> 3) & 1) << 7) | (p << 11);
    assert((t >> 11) & 3 == p
        && (((t & !0x1888u64) | (((t >> 7) & 1) << 3) | (1u64 << 7)) >> 3) & 1 == (m >> 3) & 1
        && (((((t & !0x1888u64) | (((t >> 7) & 1) << 3) | (1u64 << 7)) & !(1u64 << 17)) >> 3) & 1 == (m >> 3) & 1))
        by (bit_vector)
        requires
            p <= 3,
            t == (m & !0x1888u64) | (((m >> 3) & 1) << 7) | (p << 11);
}

/// A trap delegated to S-mode followed by SRET (with mstatus.TSR clear) returns
/// to the trapping pc and privilege level, with mstatus.SIE as it was.
pub proof fn lemma_trap_then_sret(h: Hart, cause: u64, tval: u64)
    requires
        trap_delegated(h, cause),
        bit(h.csr.mstatus, 22) == 0,
    ensures
        sret_step(trap_spec(h, cause, tval)).pc == h.pc,
        sret_step(trap_spec(h, cause, tval)).mode == h.mode,
        bit(sret_step(trap_spec(h, cause, tval)).csr.mstatus, 1) == bit(h.csr.mstatus, 1),
{
    reveal(sret_step);
    let m = h.csr.mstatus;
    let sp: u64 = if h.mode == PrivMode::S { 1 } else { 0 };
    let t = (m & !0x122u64) | (((m >> 1) & 1) << 5) | (sp << 8);
    assert((t >> 8) & 1 == sp
        && (t >> 22) & 1 == (m >> 22) & 1
        && (((((t & !(1u64 << 17)) & !0x122u64) | ((((t & !(1u64 << 17)) >> 5) & 1) << 1) | (1u64 << 5)) >> 1) & 1) == (m >> 1) & 1)
        by (bit_vector)
        requires
            sp <= 1,
            t == (m & !0x122u64) | (((m >> 1) & 1) << 5) | (sp << 8);
}

/// A single-precision value NaN-boxed into a 64-bit f register.
pub open spec fn nan_box(v: u64) -> u64 {
    0xFFFF_FFFF_0000_0000u64 | (v & 0xFFFF_FFFF)
}

/// The single-precision bits that an f register holds: its low half when it is
/// NaN-boxed, else the canonical quiet NaN.
pub open spec fn f32_bits(v: u64) -> u64 {
    if v >> 32 != 0xFFFF_FFFF { 0x7FC0_0000 } else { v & 0xFFFF_FFFF }
}

/// FCLASS of single-precision bits `b`: one bit set, for -inf, -normal,
/// -subnormal, -0, +0, +subnormal, +normal, +inf, signaling NaN, quiet NaN.
pub open spec fn fclass32(b: u64) -> u64 {
    let sign = (b >> 31) & 1;
    let exp = (b >> 23) & 0xFF;
    let mant = b & 0x7F_FFFF;
    if exp == 0xFF && mant != 0 { if mant & 0x40_0000 != 0 { 1u64 << 9 } else { 1u64 << 8 } }
    else if exp == 0xFF { if sign != 0 { 1u64 << 0 } else { 1u64 << 7 } }
    else if exp == 0 && mant == 0 { if sign != 0 { 1u64 << 3 } else { 1u64 << 4 } }
    else if exp == 0 { if sign != 0 { 1u64 << 2 } else { 1u64 << 5 } }
    else if sign != 0 { 1u64 << 1 } else { 1u64 << 6 }
}

/// FCLASS of double-precision bits `b`.
pub open spec fn fclass64(b: u64) -> u64 {
    let sign = b >> 63;
    let exp = (b >> 52) & 0x7FF;
    let mant = b & 0x000F_FFFF_FFFF_FFFF;
    if exp == 0x7FF && mant != 0 { if mant & 0x0008_0000_0000_0000 != 0 { 1u64 << 9 } else { 1u64 << 8 } }
    else if exp == 0x7FF { if sign != 0 { 1u64 << 0 } else { 1u64 << 7 } }
    else if exp == 0 && mant == 0 { if sign != 0 { 1u64 << 3 } else { 1u64 << 4 } }
    else if exp == 0 { if sign != 0 { 1u64 << 2 } else { 1u64 << 5 } }
    else if sign != 0 { 1u64 << 1 } else { 1u64 << 6 }
}

/// FLW / FLD: load `width` bytes into f register `fd` (a word NaN-boxed).
#[verifier::opaque]
pub open spec fn fload_step(h: Hart, fd: usize, va: u64, width: usize) -> Hart {
    let (r, h2) = data_translate(h, va, AccessType::Load);
    match r {
        Err(f) => trap_spec(h2, f.cause, f.tval),
        Ok(pa) => match phys_load(h2, pa, width) {
            (None, _) => trap_spec(h2, 5, va),
            (Some(raw), h3) => {
                let v = if width == 4 { nan_box(raw) } else { raw };
                Hart { fregs: h3.fregs.update(fd as int, v), pc: next_pc(h), ..h3 }
            },
        },
    }
}

/// The floating-point instructions that only move or inspect bits.
pub open spec fn is_fp(inst: Instruction) -> bool {
    match inst {
        Instruction::Flw { .. } | Instruction::Fld { .. } | Instruction::Fsw { .. } | Instruction::Fsd { .. } | Instruction::FmvXW { .. } | Instruction::FmvXD { .. } | Instruction::FmvWX { .. } | Instruction::FmvDX { .. } | Instruction::FclassS { .. } | Instruction::FclassD { .. } | Instruction::FsgnjS { .. } | Instruction::FsgnjnS { .. } | Instruction::FsgnjxS { .. } | Instruction::FsgnjD { .. } | Instruction::FsgnjnD { .. } | Instruction::FsgnjxD { .. } => true,
        _ => false,
    }
}

/// The floating-point instructions that compute with floats: the hart leaves
/// them to the caller (see `fpu_complete_spec`).
pub open spec fn is_fpu(inst: Instruction) -> bool {
    match inst {
        Instruction::FsqrtS { .. } | Instruction::FsqrtD { .. } | Instruction::FcvtSD { .. } | Instruction::FcvtDS { .. } | Instruction::FcvtWS { .. } | Instruction::FcvtWUS { .. } | Instruction::FcvtLS { .. } | Instruction::FcvtLUS { .. } | Instruction::FcvtWD { .. } | Instruction::FcvtWUD { .. } | Instruction::FcvtLD { .. } | Instruction::FcvtLUD { .. } | Instruction::FcvtSW { .. } | Instruction::FcvtSWU { .. } | Instruction::FcvtSL { .. } | Instruction::FcvtSLU { .. } | Instruction::FcvtDW { .. } | Instruction::FcvtDWU { .. } | Instruction::FcvtDL { .. } | Instruction::FcvtDLU { .. } | Instruction::FminS { .. } | Instruction::FmaxS { .. } | Instruction::FminD { .. } | Instruction::FmaxD { .. } | Instruction::FleS { .. } | Instruction::FltS { .. } | Instruction::FeqS { .. } | Instruction::FleD { .. } | Instruction::FltD { .. } | Instruction::FeqD { .. } | Instruction::FaddS { .. } | Instruction::FsubS { .. } | Instruction::FmulS { .. } | Instruction::FdivS { .. } | Instruction::FaddD { .. } | Instruction::FsubD { .. } | Instruction::FmulD { .. } | Instruction::FdivD { .. } | Instruction::FmaddS { .. } | Instruction::FmsubS { .. } | Instruction::FnmsubS { .. } | Instruction::FnmaddS { .. } | Instruction::FmaddD { .. } | Instruction::FmsubD { .. } | Instruction::FnmsubD { .. } | Instruction::FnmaddD { .. } => true,
        _ => false,
    }
}

/// Whether a float instruction's result goes to an integer register.
pub open spec fn fpu_to_x(inst: Instruction) -> bool {
    match inst {
        Instruction::FleS { .. } | Instruction::FltS { .. } | Instruction::FeqS { .. } | Instruction::FleD { .. } | Instruction::FltD { .. } | Instruction::FeqD { .. } | Instruction::FcvtWS { .. } | Instruction::FcvtWUS { .. } | Instruction::FcvtLS { .. } | Instruction::FcvtLUS { .. } | Instruction::FcvtWD { .. } | Instruction::FcvtWUD { .. } | Instruction::FcvtLD { .. } | Instruction::FcvtLUD { .. } => true,
        _ => false,
    }
}

/// The destination register of a float instruction.
pub open spec fn fpu_rd(inst: Instruction) -> usize {
    match inst {
        Instruction::FsqrtS { rd, .. } | Instruction::FsqrtD { rd, .. } | Instruction::FcvtSD { rd, .. } | Instruction::FcvtDS { rd, .. } | Instruction::FcvtWS { rd, .. } | Instruction::FcvtWUS { rd, .. } | Instruction::FcvtLS { rd, .. } | Instruction::FcvtLUS { rd, .. } | Instruction::FcvtWD { rd, .. } | Instruction::FcvtWUD { rd, .. } | Instruction::FcvtLD { rd, .. } | Instruction::FcvtLUD { rd, .. } | Instruction::FcvtSW { rd, .. } | Instruction::FcvtSWU { rd, .. } | Instruction::FcvtSL { rd, .. } | Instruction::FcvtSLU { rd, .. } | Instruction::FcvtDW { rd, .. } | Instruction::FcvtDWU { rd, .. } | Instruction::FcvtDL { rd, .. } | Instruction::FcvtDLU { rd, .. } => rd,
        Instruction::FminS { rd, .. } | Instruction::FmaxS { rd, .. } | Instruction::FminD { rd, .. } | Instruction::FmaxD { rd, .. } | Instruction::FleS { rd, .. } | Instruction::FltS { rd, .. } | Instruction::FeqS { rd, .. } | Instruction::FleD { rd, .. } | Instruction::FltD { rd, .. } | Instruction::FeqD { rd, .. } | Instruction::FaddS { rd, .. } | Instruction::FsubS { rd, .. } | Instruction::FmulS { rd, .. } | Instruction::FdivS { rd, .. } | Instruction::FaddD { rd, .. } | Instruction::FsubD { rd, .. } | Instruction::FmulD { rd, .. } | Instruction::FdivD { rd, .. } => rd,
        Instruction::FmaddS { rd, .. } | Instruction::FmsubS { rd, .. } | Instruction::FnmsubS { rd, .. } | Instruction::FnmaddS { rd, .. } | Instruction::FmaddD { rd, .. } | Instruction::FmsubD { rd, .. } | Instruction::FnmsubD { rd, .. } | Instruction::FnmaddD { rd, .. } => rd,
        _ => 0,
    }
}

/// The hart after a float instruction whose result (value bits, NaN-boxed for
/// single precision) the caller computed as `value`.
pub open spec fn fpu_complete_spec(h: Hart, inst: Instruction, value: u64) -> Hart {
    if fpu_to_x(inst) {
        Hart { regs: set_xreg(h.regs, fpu_rd(inst), value), pc: next_pc(h), ..h }
    } else {
        Hart { fregs: h.fregs.update(fpu_rd(inst) as int, value), pc: next_pc(h), ..h }
    }
}

/// A bit-level floating-point instruction.
#[verifier::opaque]
pub open spec fn fp_step(h: Hart, inst: Instruction) -> Hart {
    let x = |n: usize| xreg(h, n);
    let f = |n: usize| h.fregs[n as int];
    let fwrite = |rd: usize, v: u64| Hart { fregs: h.fregs.update(rd as int, v), pc: next_pc(h), ..h };
    let xwrite = |rd: usize, v: u64| Hart { regs: set_xreg(h.regs, rd, v), pc: next_pc(h), ..h };
    match inst {
        Instruction::Flw { fd, rs1, imm } => fload_step(h, fd, x(rs1).wrapping_add(imm as u64), 4),
        Instruction::Fld { fd, rs1, imm } => fload_step(h, fd, x(rs1).wrapping_add(imm as u64), 8),
        Instruction::Fsw { rs1, fs2, imm } => store_step(h, x(rs1).wrapping_add(imm as u64), 4, f(fs2)),
        Instruction::Fsd { rs1, fs2, imm } => store_step(h, x(rs1).wrapping_add(imm as u64), 8, f(fs2)),
        Instruction::FmvXW { rd, rs1 } => xwrite(rd, sext32(f(rs1) & 0xFFFF_FFFF)),
        Instruction::FmvXD { rd, rs1 } => xwrite(rd, f(rs1)),
        Instruction::FmvWX { rd, rs1 } => fwrite(rd, nan_box(x(rs1))),
        Instruction::FmvDX { rd, rs1 } => fwrite(rd, x(rs1)),
        Instruction::FclassS { rd, rs1 } => xwrite(rd, fclass32(f32_bits(f(rs1)))),
        Instruction::FclassD { rd, rs1 } => xwrite(rd, fclass64(f(rs1))),
        Instruction::FsgnjS { rd, rs1, rs2 } =>
            fwrite(rd, nan_box((f32_bits(f(rs1)) & 0x7FFF_FFFF) | (f32_bits(f(rs2)) & 0x8000_0000))),
        Instruction::FsgnjnS { rd, rs1, rs2 } =>
            fwrite(rd, nan_box((f32_bits(f(rs1)) & 0x7FFF_FFFF) | (!f32_bits(f(rs2)) & 0x8000_0000))),
        Instruction::FsgnjxS { rd, rs1, rs2 } =>
            fwrite(rd, nan_box(f32_bits(f(rs1)) ^ (f32_bits(f(rs2)) & 0x8000_0000))),
        Instruction::FsgnjD { rd, rs1, rs2 } =>
            fwrite(rd, (f(rs1) & 0x7FFF_FFFF_FFFF_FFFF) | (f(rs2) & 0x8000_0000_0000_0000)),
        Instruction::FsgnjnD { rd, rs1, rs2 } =>
            fwrite(rd, (f(rs1) & 0x7FFF_FFFF_FFFF_FFFF) | (!f(rs2) & 0x8000_0000_0000_0000)),
        Instruction::FsgnjxD { rd, rs1, rs2 } =>
            fwrite(rd, f(rs1) ^ (f(rs2) & 0x8000_0000_0000_0000)),
        _ => h,
    }
}

/// The cause of an ECALL from each privilege level.
pub open spec fn ecall_cause(m: PrivMode) -> u64 {
    match m {
        PrivMode::U => 8,
        PrivMode::S => 9,
        PrivMode::M => 11,
    }
}

pub open spec fn is_mem(inst: Instruction) -> bool {
    match inst {
        Instruction::Lb { .. } | Instruction::Lh { .. } | Instruction::Lw { .. } | Instruction::Ld { .. } | Instruction::Lbu { .. } | Instruction::Lhu { .. } | Instruction::Lwu { .. } | Instruction::Sb { .. } | Instruction::Sh { .. } | Instruction::Sw { .. } | Instruction::Sd { .. } | Instruction::LrD { .. } | Instruction::LrW { .. } | Instruction::ScD { .. } | Instruction::ScW { .. } => true,
        _ => false,
    }
}

pub open spec fn is_amo(inst: Instruction) -> bool {
    match inst {
        Instruction::AmoswapD { .. } | Instruction::AmoswapW { .. } | Instruction::AmoaddD { .. } | Instruction::AmoaddW { .. } | Instruction::AmoxorD { .. } | Instruction::AmoxorW { .. } | Instruction::AmoandD { .. } | Instruction::AmoandW { .. } | Instruction::AmoorD { .. } | Instruction::AmoorW { .. } | Instruction::AmominD { .. } | Instruction::AmominW { .. } | Instruction::AmomaxD { .. } | Instruction::AmomaxW { .. } | Instruction::AmominuD { .. } | Instruction::AmominuW { .. } | Instruction::AmomaxuD { .. } | Instruction::AmomaxuW { .. } => true,
        _ => false,
    }
}

pub open spec fn is_csr(inst: Instruction) -> bool {
    match inst {
        Instruction::Csrrw { .. } | Instruction::Csrrs { .. } | Instruction::Csrrc { .. } | Instruction::Csrrwi { .. } | Instruction::Csrrsi { .. } | Instruction::Csrrci { .. } => true,
        _ => false,
    }
}

pub open spec fn is_ctl(inst: Instruction) -> bool {
    match inst {
        Instruction::Beq { .. } | Instruction::Bne { .. } | Instruction::Blt { .. } | Instruction::Bge { .. } | Instruction::Bltu { .. } | Instruction::Bgeu { .. } | Instruction::Jal { .. } | Instruction::Jalr { .. } | Instruction::Fence | Instruction::FenceI | Instruction::Wfi | Instruction::Ecall | Instruction::Ebreak | Instruction::Mret | Instruction::Sret | Instruction::SfenceVma => true,
        _ => false,
    }
}

/// The hart after executing `inst`: float arithmetic is left to the caller
/// (the hart is unchanged), bit-level floating point is `fp_step`, the rest
/// `exec_int_spec`.
#[verifier::opaque]
pub open spec fn exec_spec(h: Hart, inst: Instruction) -> Hart {
    if is_fpu(inst) { h } else if is_fp(inst) { fp_step(h, inst) } else { exec_int_spec(h, inst) }
}

/// The hart after executing an integer or system instruction `inst`.
#[verifier::opaque]
pub open spec fn exec_int_spec(h: Hart, inst: Instruction) -> Hart {
    let x = |n: usize| xreg(h, n);
    match inst {
        Instruction::Lb { rd, rs1, imm } => load_step(h, rd, x(rs1).wrapping_add(imm as u64), 1, true),
        Instruction::Lh { rd, rs1, imm } => load_step(h, rd, x(rs1).wrapping_add(imm as u64), 2, true),
        Instruction::Lw { rd, rs1, imm } => load_step(h, rd, x(rs1).wrapping_add(imm as u64), 4, true),
        Instruction::Ld { rd, rs1, imm } => load_step(h, rd, x(rs1).wrapping_add(imm as u64), 8, true),
        Instruction::Lbu { rd, rs1, imm } => load_step(h, rd, x(rs1).wrapping_add(imm as u64), 1, false),
        Instruction::Lhu { rd, rs1, imm } => load_step(h, rd, x(rs1).wrapping_add(imm as u64), 2, false),
        Instruction::Lwu { rd, rs1, imm } => load_step(h, rd, x(rs1).wrapping_add(imm as u64), 4, false),
        Instruction::Sb { rs1, rs2, imm } => store_step(h, x(rs1).wrapping_add(imm as u64), 1, x(rs2)),
        Instruction::Sh { rs1, rs2, imm } => store_step(h, x(rs1).wrapping_add(imm as u64), 2, x(rs2)),
        Instruction::Sw { rs1, rs2, imm } => store_step(h, x(rs1).wrapping_add(imm as u64), 4, x(rs2)),
        Instruction::Sd { rs1, rs2, imm } => store_step(h, x(rs1).wrapping_add(imm as u64), 8, x(rs2)),
        Instruction::Beq { rs1, rs2, imm } => branch_step(h, x(rs1) == x(rs2), imm),
        Instruction::Bne { rs1, rs2, imm } => branch_step(h, x(rs1) != x(rs2), imm),
        Instruction::Blt { rs1, rs2, imm } => branch_step(h, (x(rs1) as i64) < (x(rs2) as i64), imm),
        Instruction::Bge { rs1, rs2, imm } => branch_step(h, (x(rs1) as i64) >= (x(rs2) as i64), imm),
        Instruction::Bltu { rs1, rs2, imm } => branch_step(h, x(rs1) < x(rs2), imm),
        Instruction::Bgeu { rs1, rs2, imm } => branch_step(h, x(rs1) >= x(rs2), imm),
        Instruction::Jal { rd, imm } => jump_step(h, rd, h.pc.wrapping_add(imm as u64)),
        Instruction::Jalr { rd, rs1, imm } => jump_step(h, rd, x(rs1).wrapping_add(imm as u64) & !1u64),
        Instruction::Fence | Instruction::Wfi => Hart { pc: next_pc(h), ..h },
        Instruction::FenceI => Hart { pc: next_pc(h), fence_i_pending: true, ..h },
        Instruction::Ecall => trap_spec(h, ecall_cause(h.mode), 0),
        Instruction::Ebreak => trap_spec(h, 3, h.pc),
        Instruction::Mret => mret_step(h),
        Instruction::Sret => sret_step(h),
        Instruction::SfenceVma => {
            if tvm_trapped(h) { trap_spec(h, 2, 0) } else { Hart { tlb: flushed(h.tlb), jit_invalidate: true, pc: next_pc(h), ..h } }
        },
        Instruction::Csrrw { rd, rs1, csr } => csr_step(h, rd, csr, if rd != 0 { h.csr.read_spec(csr) } else { 0 }, true, x(rs1)),
        Instruction::Csrrs { rd, rs1, csr } => csr_step(h, rd, csr, h.csr.read_spec(csr), rs1 != 0, h.csr.read_spec(csr) | x(rs1)),
        Instruction::Csrrc { rd, rs1, csr } => csr_step(h, rd, csr, h.csr.read_spec(csr), rs1 != 0, h.csr.read_spec(csr) & !x(rs1)),
        Instruction::Csrrwi { rd, uimm, csr } => csr_step(h, rd, csr, if rd != 0 { h.csr.read_spec(csr) } else { 0 }, true, uimm as u64),
        Instruction::Csrrsi { rd, uimm, csr } => csr_step(h, rd, csr, h.csr.read_spec(csr), uimm != 0, h.csr.read_spec(csr) | (uimm as u64)),
        Instruction::Csrrci { rd, uimm, csr } => csr_step(h, rd, csr, h.csr.read_spec(csr), uimm != 0, h.csr.read_spec(csr) & !(uimm as u64)),
        Instruction::LrD { rd, rs1 } => lr_step(h, rd, x(rs1), 8),
        Instruction::LrW { rd, rs1 } => lr_step(h, rd, x(rs1), 4),
        Instruction::ScD { rd, rs1, rs2 } => sc_step(h, rd, x(rs1), 8, x(rs2)),
        Instruction::ScW { rd, rs1, rs2 } => sc_step(h, rd, x(rs1), 4, x(rs2)),
        Instruction::AmoswapD { rd, rs1, rs2 } => amo_step(h, AmoOp::Swap, rd, x(rs1), 8, x(rs2)),
        Instruction::AmoswapW { rd, rs1, rs2 } => amo_step(h, AmoOp::Swap, rd, x(rs1), 4, x(rs2)),
        Instruction::AmoaddD { rd, rs1, rs2 } => amo_step(h, AmoOp::Add, rd, x(rs1), 8, x(rs2)),
        Instruction::AmoaddW { rd, rs1, rs2 } => amo_step(h, AmoOp::Add, rd, x(rs1), 4, x(rs2)),
        Instruction::AmoxorD { rd, rs1, rs2 } => amo_step(h, AmoOp::Xor, rd, x(rs1), 8, x(rs2)),
        Instruction::AmoxorW { rd, rs1, rs2 } => amo_step(h, AmoOp::Xor, rd, x(rs1), 4, x(rs2)),
        Instruction::AmoandD { rd, rs1, rs2 } => amo_step(h, AmoOp::And, rd, x(rs1), 8, x(rs2)),
        Instruction::AmoandW { rd, rs1, rs2 } => amo_step(h, AmoOp::And, rd, x(rs1), 4, x(rs2)),
        Instruction::AmoorD { rd, rs1, rs2 } => amo_step(h, AmoOp::Or, rd, x(rs1), 8, x(rs2)),
        Instruction::AmoorW { rd, rs1, rs2 } => amo_step(h, AmoOp::Or, rd, x(rs1), 4, x(rs2)),
        Instruction::AmominD { rd, rs1, rs2 } => amo_step(h, AmoOp::Min, rd, x(rs1), 8, x(rs2)),
        Instruction::AmominW { rd, rs1, rs2 } => amo_step(h, AmoOp::Min, rd, x(rs1), 4, x(rs2)),
        Instruction::AmomaxD { rd, rs1, rs2 } => amo_step(h, AmoOp::Max, rd, x(rs1), 8, x(rs2)),
        Instruction::AmomaxW { rd, rs1, rs2 } => amo_step(h, AmoOp::Max, rd, x(rs1), 4, x(rs2)),
        Instruction::AmominuD { rd, rs1, rs2 } => amo_step(h, AmoOp::Minu, rd, x(rs1), 8, x(rs2)),
        Instruction::AmominuW { rd, rs1, rs2 } => amo_step(h, AmoOp::Minu, rd, x(rs1), 4, x(rs2)),
        Instruction::AmomaxuD { rd, rs1, rs2 } => amo_step(h, AmoOp::Maxu, rd, x(rs1), 8, x(rs2)),
        Instruction::AmomaxuW { rd, rs1, rs2 } => amo_step(h, AmoOp::Maxu, rd, x(rs1), 4, x(rs2)),
        _ => {
            let (rd, rs1, rs2) = alu_regs(inst);
            Hart { regs: set_xreg(h.regs, rd, alu_spec(inst, x(rs1), x(rs2), h.pc)), pc: next_pc(h), ..h }
        },
    }
}

/// Division truncates toward zero: quotient times divisor plus remainder is the
/// dividend, the remainder is smaller than the divisor in magnitude and takes
/// the dividend's sign.
pub proof fn lemma_tdiv_trem(x: int, y: int)
    requires
        y != 0,
    ensures
        tdiv(x, y) * y + trem(x, y) == x,
        (if trem(x, y) >= 0 { trem(x, y) } else { -trem(x, y) }) < (if y >= 0 { y } else { -y }),
        trem(x, y) == 0 || ((trem(x, y) > 0) == (x > 0)),
{
    let ax = if x >= 0 { x } else { -x };
    let ay = if y >= 0 { y } else { -y };
    let q = ax / ay;
    let r = ax % ay;
    vstd::arithmetic::div_mod::lemma_fundamental_div_mod(ax, ay);
    vstd::arithmetic::div_mod::lemma_mod_bound(ax, ay);
    assert(ax == ay * q + r);
    if x >= 0 && y > 0 {
        assert(tdiv(x, y) * y == q * ay) by (nonlinear_arith) requires tdiv(x, y) == q, y == ay;
    } else if x >= 0 {
        assert(tdiv(x, y) * y == q * ay) by (nonlinear_arith) requires tdiv(x, y) == -q, y == -ay;
    } else if y > 0 {
        assert(tdiv(x, y) * y == -(q * ay)) by (nonlinear_arith) requires tdiv(x, y) == -q, y == ay;
    } else {
        assert(tdiv(x, y) * y == -(q * ay)) by (nonlinear_arith) requires tdiv(x, y) == q, y == -ay;
    }
    assert(q * ay == ay * q) by (nonlinear_arith);
}

/// Unsigned division and remainder put the dividend back together, also when
/// dividing by zero (quotient all ones, remainder the dividend).
pub proof fn lemma_divu_remu(rd: usize, rs1: usize, rs2: usize, a: u64, b: u64, pc: u64)
    ensures
        alu_spec(Instruction::Divu { rd, rs1, rs2 }, a, b, pc).wrapping_mul(b)
            .wrapping_add(alu_spec(Instruction::Remu { rd, rs1, rs2 }, a, b, pc)) == a,
{
    reveal(alu_spec);
    if b != 0 {
        let q = a / b;
        let r = a % b;
        vstd::arithmetic::div_mod::lemma_fundamental_div_mod(a as int, b as int);
        vstd::arithmetic::div_mod::lemma_mod_bound(a as int, b as int);
        assert(q * b == b * q) by (nonlinear_arith);
        assert(q * b <= a);
        vstd::arithmetic::div_mod::lemma_small_mod((q * b) as nat, 0x1_0000_0000_0000_0000nat);
    } else {
        vstd::arithmetic::div_mod::lemma_small_mod(0nat, 0x1_0000_0000_0000_0000nat);
    }
}

/// The 32-bit shifts, bit by bit: an arithmetic shift of the low word is the
/// 64-bit arithmetic shift of its sign extension, and keeps its sign; a logical
/// shift of the low word shifts in zeros; both results are sign-extended words.
proof fn lemma_w_shift_bits(a: u64, k: u32)
    by (bit_vector)
    requires
        k < 32,
    ensures
        sext32(((a as i32) >> k) as u64) as i64 == ((a as i32) as i64) >> (k as u64),
        ((a as i32) < 0) == ((sext32(((a as i32) >> k) as u64) as i64) < 0),
        sext32(((a as u32) >> k) as u64) & 0xFFFF_FFFF == (a & 0xFFFF_FFFF) >> (k as u64),
        sext32(((a as u32) >> k) as u64) as i64 == ((sext32(((a as u32) >> k) as u64) as i32) as i64),
{
}

/// SRAW and SRLW (and their immediate forms SRAIW and SRLIW) shift the low 32
/// bits of x[rs1] by x[rs2] & 31 (or shamt): SRAW gives the arithmetic shift of
/// the word taken as a signed i32, sign-extended (a negative word stays
/// negative); SRLW shifts in zeros, and its word is then sign-extended.
pub proof fn lemma_word_shifts(rd: usize, rs1: usize, rs2: usize, a: u64, b: u64, pc: u64, shamt: u32)
    requires
        shamt < 32,
    ensures
        alu_spec(Instruction::Sraw { rd, rs1, rs2 }, a, b, pc) as i64 == ((a as i32) as i64) >> (b & 31),
        ((a as i32) < 0) == ((alu_spec(Instruction::Sraw { rd, rs1, rs2 }, a, b, pc) as i64) < 0),
        alu_spec(Instruction::Sraiw { rd, rs1, shamt }, a, b, pc) as i64 == ((a as i32) as i64) >> (shamt as u64),
        ((a as i32) < 0) == ((alu_spec(Instruction::Sraiw { rd, rs1, shamt }, a, b, pc) as i64) < 0),
        alu_spec(Instruction::Srlw { rd, rs1, rs2 }, a, b, pc) & 0xFFFF_FFFF == (a & 0xFFFF_FFFF) >> (b & 31),
        alu_spec(Instruction::Srlw { rd, rs1, rs2 }, a, b, pc) as i64
            == ((alu_spec(Instruction::Srlw { rd, rs1, rs2 }, a, b, pc) as i32) as i64),
        alu_spec(Instruction::Srliw { rd, rs1, shamt }, a, b, pc) & 0xFFFF_FFFF == (a & 0xFFFF_FFFF) >> (shamt as u64),
        alu_spec(Instruction::Srliw { rd, rs1, shamt }, a, b, pc) as i64
            == ((alu_spec(Instruction::Srliw { rd, rs1, shamt }, a, b, pc) as i32) as i64),
{
    reveal(alu_spec);
    assert((b & 31) < 32 && ((b & 31) as u32) as u64 == b & 31) by (bit_vector);
    lemma_w_shift_bits(a, (b & 31) as u32);
    lemma_w_shift_bits(a, shamt);
}

/// The 64-bit shifts, bit by bit.
proof fn lemma_shift_bits(a: u64, k: u64)
    by (bit_vector)
    requires
        k < 64,
    ensures
        ((((a as i64) >> k) as u64) as i64 == (a as i64) >> k),
        (((a as i64) >> k) < 0) == ((a as i64) < 0),
        (a >> k) <= a,
        k > 0 ==> (a >> k) >> ((64 - k) as u64) == 0,
        (a << k) >> k == a & (0xFFFF_FFFF_FFFF_FFFFu64 >> k),
        k > 0 ==> (a << k) << ((64 - k) as u64) == 0,
{
}

/// SRA/SRAI, SRL/SRLI and SLL/SLLI shift x[rs1] by x[rs2] & 63 (or shamt):
/// the arithmetic right shift keeps the sign; the logical right shift never
/// grows the value and shifts in zeros; the left shift keeps the bits that
/// stay in range and shifts in zeros at the bottom.
pub proof fn lemma_shifts(rd: usize, rs1: usize, rs2: usize, a: u64, b: u64, pc: u64, shamt: u32)
    requires
        shamt < 64,
    ensures
        ((alu_spec(Instruction::Sra { rd, rs1, rs2 }, a, b, pc) as i64) < 0) == ((a as i64) < 0),
        ((alu_spec(Instruction::Srai { rd, rs1, shamt }, a, b, pc) as i64) < 0) == ((a as i64) < 0),
        alu_spec(Instruction::Srl { rd, rs1, rs2 }, a, b, pc) <= a,
        b & 63 > 0 ==> alu_spec(Instruction::Srl { rd, rs1, rs2 }, a, b, pc) >> ((64 - (b & 63)) as u64) == 0,
        alu_spec(Instruction::Srli { rd, rs1, shamt }, a, b, pc) <= a,
        shamt > 0 ==> alu_spec(Instruction::Srli { rd, rs1, shamt }, a, b, pc) >> ((64 - shamt) as u64) == 0,
        alu_spec(Instruction::Sll { rd, rs1, rs2 }, a, b, pc) >> (b & 63) == a & (0xFFFF_FFFF_FFFF_FFFFu64 >> (b & 63)),
        b & 63 > 0 ==> alu_spec(Instruction::Sll { rd, rs1, rs2 }, a, b, pc) << ((64 - (b & 63)) as u64) == 0,
        alu_spec(Instruction::Slli { rd, rs1, shamt }, a, b, pc) >> (shamt as u64) == a & (0xFFFF_FFFF_FFFF_FFFFu64 >> (shamt as u64)),
        shamt > 0 ==> alu_spec(Instruction::Slli { rd, rs1, shamt }, a, b, pc) << ((64 - shamt) as u64) == 0,
{
    reveal(alu_spec);
    assert(b & 63 < 64) by (bit_vector);
    lemma_shift_bits(a, b & 63);
    lemma_shift_bits(a, shamt as u64);
}

/// RISC-V's results for division by zero and for the one overflowing signed
/// division: x / 0 is all ones and x % 0 is x (all widths), and
/// i64::MIN / -1 = i64::MIN with remainder 0.
pub proof fn lemma_div_special_cases(rd: usize, rs1: usize, rs2: usize, a: u64, pc: u64)
    ensures
        alu_spec(Instruction::Div { rd, rs1, rs2 }, a, 0, pc) == u64::MAX,
        alu_spec(Instruction::Divu { rd, rs1, rs2 }, a, 0, pc) == u64::MAX,
        alu_spec(Instruction::Rem { rd, rs1, rs2 }, a, 0, pc) == a,
        alu_spec(Instruction::Remu { rd, rs1, rs2 }, a, 0, pc) == a,
        alu_spec(Instruction::Divw { rd, rs1, rs2 }, a, 0, pc) == u64::MAX,
        alu_spec(Instruction::Divuw { rd, rs1, rs2 }, a, 0, pc) == u64::MAX,
        alu_spec(Instruction::Remw { rd, rs1, rs2 }, a, 0, pc) == sext32(a),
        alu_spec(Instruction::Remuw { rd, rs1, rs2 }, a, 0, pc) == sext32(a),
        alu_spec(Instruction::Div { rd, rs1, rs2 }, 0x8000_0000_0000_0000, u64::MAX, pc) == 0x8000_0000_0000_0000,
        alu_spec(Instruction::Rem { rd, rs1, rs2 }, 0x8000_0000_0000_0000, u64::MAX, pc) == 0,
{
    reveal(alu_spec);
    assert((a as i64) as u64 == a) by (bit_vector);
    assert(0u64 as i64 == 0i64) by (bit_vector);
    assert(0u64 as i32 == 0i32) by (bit_vector);
    assert(0u64 as u32 == 0u32) by (bit_vector);
    assert(((a as i32) as u64) & 0xFFFF_FFFF == a & 0xFFFF_FFFF) by (bit_vector);
    assert(((a as u32) as u64) & 0xFFFF_FFFF == a & 0xFFFF_FFFF) by (bit_vector);
    assert(forall|v: u64, w: u64| v & 0xFFFF_FFFF == w & 0xFFFF_FFFF ==> #[trigger] sext32(v) == #[trigger] sext32(w))
        by (bit_vector);
    assert(0x8000_0000_0000_0000u64 as i64 == i64::MIN) by (bit_vector);
    assert(u64::MAX as i64 == -1i64) by (bit_vector);
    assert((i64::MIN as u64) == 0x8000_0000_0000_0000u64) by (bit_vector);
}

/// A single-precision value that is not NaN-boxed reads as the canonical quiet
/// NaN; a NaN-boxed one reads back exactly.
pub proof fn lemma_nan_boxing(v: u64, w: u64)
    ensures
        v >> 32 != 0xFFFF_FFFF ==> fclass32(f32_bits(v)) == 1u64 << 9,
        f32_bits(nan_box(w)) == w & 0xFFFF_FFFF,
        nan_box(nan_box(w)) == nan_box(w),
{
    assert(fclass32(0x7FC0_0000) == 1u64 << 9 && (nan_box(w) >> 32) == 0xFFFF_FFFF
        && (nan_box(w) & 0xFFFF_FFFF) == w & 0xFFFF_FFFF
        && (0xFFFF_FFFF_0000_0000u64 | (nan_box(w) & 0xFFFF_FFFF)) == nan_box(w)) by (bit_vector);
}

/// Moving a value into an f register and back gives it back: a double exactly,
/// a single as its low word sign-extended.
pub proof fn lemma_fmv_round_trip(w: u64)
    ensures
        sext32(nan_box(w) & 0xFFFF_FFFF) == sext32(w),
{
    assert(sext32(nan_box(w) & 0xFFFF_FFFF) == sext32(w)) by (bit_vector);
}

/// `h2` has a register file of 32 with the stored x0 of `h`.
pub open spec fn keeps_x0(h: Hart, h2: Hart) -> bool {
    h2.regs.len() == 32 && h2.regs[0] == h.regs[0]
}

proof fn lemma_steps_keep_x0()
    ensures
        forall|h: Hart, c: u64, t: u64| h.regs.len() == 32 ==> #[trigger] keeps_x0(h, trap_spec(h, c, t)),
        forall|h: Hart, rd: usize, va: u64, w: usize, sg: bool| h.regs.len() == 32 && rd < 32
            ==> #[trigger] keeps_x0(h, load_step(h, rd, va, w, sg)),
        forall|h: Hart, va: u64, w: usize, v: u64| h.regs.len() == 32 ==> #[trigger] keeps_x0(h, store_step(h, va, w, v)),
        forall|h: Hart, rd: usize, va: u64, w: usize| h.regs.len() == 32 && rd < 32
            ==> #[trigger] keeps_x0(h, lr_step(h, rd, va, w)),
        forall|h: Hart, rd: usize, va: u64, w: usize, v: u64| h.regs.len() == 32 && rd < 32
            ==> #[trigger] keeps_x0(h, sc_step(h, rd, va, w, v)),
        forall|h: Hart, op: AmoOp, rd: usize, va: u64, w: usize, v: u64| h.regs.len() == 32 && rd < 32
            ==> #[trigger] keeps_x0(h, amo_step(h, op, rd, va, w, v)),
        forall|h: Hart, tk: bool, imm: i64| h.regs.len() == 32 ==> #[trigger] keeps_x0(h, branch_step(h, tk, imm)),
        forall|h: Hart, rd: usize, t: u64| h.regs.len() == 32 && rd < 32 ==> #[trigger] keeps_x0(h, jump_step(h, rd, t)),
        forall|h: Hart, rd: usize, c: u16, p: u64, w: bool, v: u64| h.regs.len() == 32 && rd < 32
            ==> #[trigger] keeps_x0(h, csr_step(h, rd, c, p, w, v)),
        forall|h: Hart| h.regs.len() == 32 ==> #[trigger] keeps_x0(h, mret_step(h)),
        forall|h: Hart| h.regs.len() == 32 ==> #[trigger] keeps_x0(h, sret_step(h)),
        forall|h: Hart, fd: usize, va: u64, w: usize| h.regs.len() == 32 ==> #[trigger] keeps_x0(h, fload_step(h, fd, va, w)),
{
    reveal(fload_step);
    reveal(load_step);
    reveal(store_step);
    reveal(lr_step);
    reveal(sc_step);
    reveal(amo_step);
    reveal(branch_step);
    reveal(jump_step);
    reveal(csr_step);
    reveal(mret_step);
    reveal(sret_step);
}

#[verifier::rlimit(40)]
proof fn lemma_exec_keeps_x0_mem(h: Hart, inst: Instruction)
    requires
        h.regs.len() == 32,
        inst_wf(inst),
        is_mem(inst),
    ensures
        keeps_x0(h, exec_spec(h, inst)),
{
    lemma_steps_keep_x0();
    reveal(exec_spec);
    reveal(exec_int_spec);
    match inst {
        Instruction::Lb { .. } => {},
        Instruction::Lh { .. } => {},
        Instruction::Lw { .. } => {},
        Instruction::Ld { .. } => {},
        Instruction::Lbu { .. } => {},
        Instruction::Lhu { .. } => {},
        Instruction::Lwu { .. } => {},
        Instruction::Sb { .. } => {},
        Instruction::Sh { .. } => {},
        Instruction::Sw { .. } => {},
        Instruction::Sd { .. } => {},
        Instruction::LrD { .. } => {},
        Instruction::LrW { .. } => {},
        Instruction::ScD { .. } => {},
        Instruction::ScW { .. } => {},
        _ => {},
    }
}

#[verifier::rlimit(40)]
proof fn lemma_exec_keeps_x0_amo(h: Hart, inst: Instruction)
    requires
        h.regs.len() == 32,
        inst_wf(inst),
        is_amo(inst),
    ensures
        keeps_x0(h, exec_spec(h, inst)),
{
    lemma_steps_keep_x0();
    reveal(exec_spec);
    reveal(exec_int_spec);
    match inst {
        Instruction::AmoswapD { .. } => {},
        Instruction::AmoswapW { .. } => {},
        Instruction::AmoaddD { .. } => {},
        Instruction::AmoaddW { .. } => {},
        Instruction::AmoxorD { .. } => {},
        Instruction::AmoxorW { .. } => {},
        Instruction::AmoandD { .. } => {},
        Instruction::AmoandW { .. } => {},
        Instruction::AmoorD { .. } => {},
        Instruction::AmoorW { .. } => {},
        Instruction::AmominD { .. } => {},
        Instruction::AmominW { .. } => {},
        Instruction::AmomaxD { .. } => {},
        Instruction::AmomaxW { .. } => {},
        Instruction::AmominuD { .. } => {},
        Instruction::AmominuW { .. } => {},
        Instruction::AmomaxuD { .. } => {},
        Instruction::AmomaxuW { .. } => {},
        _ => {},
    }
}

#[verifier::rlimit(40)]
proof fn lemma_exec_keeps_x0_csr(h: Hart, inst: Instruction)
    requires
        h.regs.len() == 32,
        inst_wf(inst),
        is_csr(inst),
    ensures
        keeps_x0(h, exec_spec(h, inst)),
{
    lemma_steps_keep_x0();
    reveal(exec_spec);
    reveal(exec_int_spec);
    match inst {
        Instruction::Csrrw { .. } => {},
        Instruction::Csrrs { .. } => {},
        Instruction::Csrrc { .. } => {},
        Instruction::Csrrwi { .. } => {},
        Instruction::Csrrsi { .. } => {},
        Instruction::Csrrci { .. } => {},
        _ => {},
    }
}

#[verifier::rlimit(40)]
proof fn lemma_exec_keeps_x0_ctl(h: Hart, inst: Instruction)
    requires
        h.regs.len() == 32,
        inst_wf(inst),
        is_ctl(inst),
    ensures
        keeps_x0(h, exec_spec(h, inst)),
{
    lemma_steps_keep_x0();
    reveal(exec_spec);
    reveal(exec_int_spec);
    match inst {
        Instruction::Beq { .. } => {},
        Instruction::Bne { .. } => {},
        Instruction::Blt { .. } => {},
        Instruction::Bge { .. } => {},
        Instruction::Bltu { .. } => {},
        Instruction::Bgeu { .. } => {},
        Instruction::Jal { .. } => {},
        Instruction::Jalr { .. } => {},
        Instruction::Fence => {},
        Instruction::FenceI => {},
        Instruction::Wfi => {},
        Instruction::Ecall => {},
        Instruction::Ebreak => {},
        Instruction::Mret => {},
        Instruction::Sret => {},
        Instruction::SfenceVma => {},
        _ => {},
    }
}

#[verifier::rlimit(40)]
proof fn lemma_exec_keeps_x0_alu(h: Hart, inst: Instruction)
    requires
        h.regs.len() == 32,
        inst_wf(inst),
        !is_mem(inst) && !is_amo(inst) && !is_csr(inst) && !is_ctl(inst) && !is_fp(inst) && !is_fpu(inst),
    ensures
        keeps_x0(h, exec_spec(h, inst)),
{
    lemma_steps_keep_x0();
    reveal(exec_spec);
    reveal(exec_int_spec);
    match inst {
        Instruction::Add { .. } => {},
        Instruction::Sub { .. } => {},
        Instruction::Sll { .. } => {},
        Instruction::Slt { .. } => {},
        Instruction::Sltu { .. } => {},
        Instruction::Xor { .. } => {},
        Instruction::Srl { .. } => {},
        Instruction::Sra { .. } => {},
        Instruction::Or { .. } => {},
        Instruction::And { .. } => {},
        Instruction::Addw { .. } => {},
        Instruction::Subw { .. } => {},
        Instruction::Sllw { .. } => {},
        Instruction::Srlw { .. } => {},
        Instruction::Sraw { .. } => {},
        Instruction::Addi { .. } => {},
        Instruction::Slti { .. } => {},
        Instruction::Sltiu { .. } => {},
        Instruction::Xori { .. } => {},
        Instruction::Ori { .. } => {},
        Instruction::Andi { .. } => {},
        Instruction::Slli { .. } => {},
        Instruction::Srli { .. } => {},
        Instruction::Srai { .. } => {},
        Instruction::Addiw { .. } => {},
        Instruction::Slliw { .. } => {},
        Instruction::Srliw { .. } => {},
        Instruction::Sraiw { .. } => {},
        Instruction::Lui { .. } => {},
        Instruction::Auipc { .. } => {},
        Instruction::Mul { .. } => {},
        Instruction::Mulh { .. } => {},
        Instruction::Mulhsu { .. } => {},
        Instruction::Mulhu { .. } => {},
        Instruction::Div { .. } => {},
        Instruction::Divu { .. } => {},
        Instruction::Rem { .. } => {},
        Instruction::Remu { .. } => {},
        Instruction::Mulw { .. } => {},
        Instruction::Divw { .. } => {},
        Instruction::Divuw { .. } => {},
        Instruction::Remw { .. } => {},
        Instruction::Remuw { .. } => {},
        _ => {},
    }
}

#[verifier::rlimit(40)]
proof fn lemma_exec_keeps_x0_fp(h: Hart, inst: Instruction)
    requires
        h.regs.len() == 32,
        inst_wf(inst),
        is_fp(inst),
    ensures
        keeps_x0(h, exec_spec(h, inst)),
{
    lemma_steps_keep_x0();
    reveal(exec_spec);
    reveal(fp_step);
    match inst {
        Instruction::Flw { .. } => {},
        Instruction::Fld { .. } => {},
        Instruction::Fsw { .. } => {},
        Instruction::Fsd { .. } => {},
        Instruction::FmvXW { .. } => {},
        Instruction::FmvXD { .. } => {},
        Instruction::FmvWX { .. } => {},
        Instruction::FmvDX { .. } => {},
        Instruction::FclassS { .. } => {},
        Instruction::FclassD { .. } => {},
        Instruction::FsgnjS { .. } => {},
        Instruction::FsgnjnS { .. } => {},
        Instruction::FsgnjxS { .. } => {},
        Instruction::FsgnjD { .. } => {},
        Instruction::FsgnjnD { .. } => {},
        Instruction::FsgnjxD { .. } => {},
        _ => {},
    }
}

/// No instruction changes the stored x0 (which every read sees as zero), nor
/// the size of the register file.
pub proof fn lemma_exec_keeps_x0(h: Hart, inst: Instruction)
    requires
        h.regs.len() == 32,
        inst_wf(inst),
    ensures
        keeps_x0(h, exec_spec(h, inst)),
{
    if is_fpu(inst) {
        reveal(exec_spec);
    } else if is_fp(inst) {
        lemma_exec_keeps_x0_fp(h, inst);
    } else if is_mem(inst) {
        lemma_exec_keeps_x0_mem(h, inst);
    } else if is_amo(inst) {
        lemma_exec_keeps_x0_amo(h, inst);
    } else if is_csr(inst) {
        lemma_exec_keeps_x0_csr(h, inst);
    } else if is_ctl(inst) {
        lemma_exec_keeps_x0_ctl(h, inst);
    } else {
        lemma_exec_keeps_x0_alu(h, inst);
    }
}

/// Sign-extend `val` from bit `b` (7, 15 or 31).
fn sext(val: u64, b: u64) -> (r: u64)
    requires
        b == 7 || b == 15 || b == 31,
    ensures
        r == sext_spec(val, b),
{
    let mask: u64 = if b == 7 { 0xFF } else if b == 15 { 0xFFFF } else { 0xFFFF_FFFF };
    if (val >> b) & 1 == 1 { val | !mask } else { val & mask }
}

fn tdiv64(a: i64, b: i64) -> (r: i64)
    requires
        b != 0,
        !(a == i64::MIN && b == -1),
    ensures
        r == tdiv(a as int, b as int),
{
    let ua: u64 = if a < 0 { (0i128 - a as i128) as u64 } else { a as u64 };
    let ub: u64 = if b < 0 { (0i128 - b as i128) as u64 } else { b as u64 };
    let q: u64 = ua / ub;
    assert(q <= ua) by (nonlinear_arith)
        requires q == ua / ub, ub >= 1;
    assert(ub >= 2 ==> q <= ua / 2) by (nonlinear_arith)
        requires q == ua / ub, ub >= 1;
    if (a >= 0) == (b > 0) { q as i64 } else { (0i128 - q as i128) as i64 }
}

fn trem64(a: i64, b: i64) -> (r: i64)
    requires
        b != 0,
    ensures
        r == trem(a as int, b as int),
{
    let ua: u64 = if a < 0 { (0i128 - a as i128) as u64 } else { a as u64 };
    let ub: u64 = if b < 0 { (0i128 - b as i128) as u64 } else { b as u64 };
    let m: u64 = ua % ub;
    if a >= 0 { m as i64 } else { (0i128 - m as i128) as i64 }
}

fn tdiv32(a: i32, b: i32) -> (r: i32)
    requires
        b != 0,
        !(a == i32::MIN && b == -1),
    ensures
        r == tdiv(a as int, b as int),
{
    let ua: u32 = if a < 0 { (0i64 - a as i64) as u32 } else { a as u32 };
    let ub: u32 = if b < 0 { (0i64 - b as i64) as u32 } else { b as u32 };
    let q: u32 = ua / ub;
    assert(q <= ua) by (nonlinear_arith)
        requires q == ua / ub, ub >= 1;
    assert(ub >= 2 ==> q <= ua / 2) by (nonlinear_arith)
        requires q == ua / ub, ub >= 1;
    if (a >= 0) == (b > 0) { q as i32 } else { (0i64 - q as i64) as i32 }
}

fn trem32(a: i32, b: i32) -> (r: i32)
    requires
        b != 0,
    ensures
        r == trem(a as int, b as int),
{
    let ua: u32 = if a < 0 { (0i64 - a as i64) as u32 } else { a as u32 };
    let ub: u32 = if b < 0 { (0i64 - b as i64) as u32 } else { b as u32 };
    let m: u32 = ua % ub;
    if a >= 0 { m as i32 } else { (0i64 - m as i64) as i32 }
}

/// Bits 127..64 of a product `p` with |p| < 2^127.
fn high_half(p: i128) -> (r: u64)
    requires
        -0x8000_0000_0000_0000_0000_0000_0000_0000int < p < 0x8000_0000_0000_0000_0000_0000_0000_0000int,
    ensures
        r == mul_hi(p as int),
{
    let d: u128 = 0x1_0000_0000_0000_0000;
    if p >= 0 {
        let q: u128 = (p as u128) / d;
        assert(q < 0x1_0000_0000_0000_0000) by (nonlinear_arith)
            requires q == (p as u128) / d, d == 0x1_0000_0000_0000_0000u128, p < 0x8000_0000_0000_0000_0000_0000_0000_0000int;
        q as u64
    } else {
        let m: u128 = (0i128 - p) as u128;
        let q: u128 = (m + (d - 1)) / d;
        assert(q <= 0x8000_0000_0000_0000 && (p as int) / (d as int) == -(q as int)) by (nonlinear_arith)
            requires
                q as int == (m as int + (d as int - 1)) / (d as int),
                m as int == -(p as int),
                d == 0x1_0000_0000_0000_0000u128,
                0 < m <= 0x8000_0000_0000_0000_0000_0000_0000_0000int;
        let hi: i128 = 0i128 - q as i128;
        hi as u64
    }
}

fn mulhu(a: u64, b: u64) -> (r: u64)
    ensures
        r == mul_hi((a as int) * (b as int)),
{
    assert((a as int) * (b as int) < 0x1_0000_0000_0000_0000_0000_0000_0000_0000int) by (nonlinear_arith)
        requires a < 0x1_0000_0000_0000_0000int, b < 0x1_0000_0000_0000_0000int;
    let p: u128 = (a as u128) * (b as u128);
    let d: u128 = 0x1_0000_0000_0000_0000;
    let q: u128 = p / d;
    assert(q < 0x1_0000_0000_0000_0000) by (nonlinear_arith)
        requires q == p / d, d == 0x1_0000_0000_0000_0000u128, p == (a as int) * (b as int), a < 0x1_0000_0000_0000_0000int, b < 0x1_0000_0000_0000_0000int;
    q as u64
}

fn alu_regs_of(inst: Instruction) -> (r: (usize, usize, usize))
    requires
        is_alu(inst),
        inst_wf(inst),
    ensures
        r == alu_regs(inst),
        r.0 < 32 && r.1 < 32 && r.2 < 32,
{
    match inst {
        Instruction::Add { rd, rs1, rs2 } | Instruction::Sub { rd, rs1, rs2 } | Instruction::Sll { rd, rs1, rs2 }
        | Instruction::Slt { rd, rs1, rs2 } | Instruction::Sltu { rd, rs1, rs2 } | Instruction::Xor { rd, rs1, rs2 }
        | Instruction::Srl { rd, rs1, rs2 } | Instruction::Sra { rd, rs1, rs2 } | Instruction::Or { rd, rs1, rs2 }
        | Instruction::And { rd, rs1, rs2 } | Instruction::Addw { rd, rs1, rs2 } | Instruction::Subw { rd, rs1, rs2 }
        | Instruction::Sllw { rd, rs1, rs2 } | Instruction::Srlw { rd, rs1, rs2 } | Instruction::Sraw { rd, rs1, rs2 }
        | Instruction::Mul { rd, rs1, rs2 } | Instruction::Mulh { rd, rs1, rs2 } | Instruction::Mulhsu { rd, rs1, rs2 }
        | Instruction::Mulhu { rd, rs1, rs2 } | Instruction::Div { rd, rs1, rs2 } | Instruction::Divu { rd, rs1, rs2 }
        | Instruction::Rem { rd, rs1, rs2 } | Instruction::Remu { rd, rs1, rs2 } | Instruction::Mulw { rd, rs1, rs2 }
        | Instruction::Divw { rd, rs1, rs2 } | Instruction::Divuw { rd, rs1, rs2 } | Instruction::Remw { rd, rs1, rs2 }
        | Instruction::Remuw { rd, rs1, rs2 } => (rd, rs1, rs2),
        Instruction::Addi { rd, rs1, .. } | Instruction::Slti { rd, rs1, .. } | Instruction::Sltiu { rd, rs1, .. }
        | Instruction::Xori { rd, rs1, .. } | Instruction::Ori { rd, rs1, .. } | Instruction::Andi { rd, rs1, .. }
        | Instruction::Slli { rd, rs1, .. } | Instruction::Srli { rd, rs1, .. } | Instruction::Srai { rd, rs1, .. }
        | Instruction::Addiw { rd, rs1, .. } | Instruction::Slliw { rd, rs1, .. } | Instruction::Srliw { rd, rs1, .. }
        | Instruction::Sraiw { rd, rs1, .. } => (rd, rs1, 0),
        Instruction::Lui { rd, .. } | Instruction::Auipc { rd, .. } => (rd, 0, 0),
        _ => (0, 0, 0),
    }
}

/// The value an ALU instruction computes.
fn alu(inst: Instruction, a: u64, b: u64, pc: u64) -> (r: u64)
    requires
        is_alu(inst),
        inst_wf(inst),
    ensures
        r == alu_spec(inst, a, b, pc),
{
    reveal(alu_spec);
    assert((b & 63) < 64 && (b & 31) < 32) by (bit_vector);
    match inst {
        Instruction::Add { .. } => a.wrapping_add(b),
        Instruction::Sub { .. } => a.wrapping_sub(b),
        Instruction::Sll { .. } => a << (b & 63),
        Instruction::Slt { .. } => if (a as i64) < (b as i64) { 1 } else { 0 },
        Instruction::Sltu { .. } => if a < b { 1 } else { 0 },
        Instruction::Xor { .. } => a ^ b,
        Instruction::Srl { .. } => a >> (b & 63),
        Instruction::Sra { .. } => ((a as i64) >> (b & 63)) as u64,
        Instruction::Or { .. } => a | b,
        Instruction::And { .. } => a & b,
        Instruction::Addw { .. } => sext(a.wrapping_add(b), 31),
        Instruction::Subw { .. } => sext(a.wrapping_sub(b), 31),
        Instruction::Sllw { .. } => sext(a << (b & 31), 31),
        Instruction::Srlw { .. } => sext(((a as u32) >> ((b & 31) as u32)) as u64, 31),
        Instruction::Sraw { .. } => sext(((a as i32) >> ((b & 31) as u32)) as u64, 31),
        Instruction::Addi { imm, .. } => a.wrapping_add(imm as u64),
        Instruction::Slti { imm, .. } => if (a as i64) < imm { 1 } else { 0 },
        Instruction::Sltiu { imm, .. } => if a < (imm as u64) { 1 } else { 0 },
        Instruction::Xori { imm, .. } => a ^ (imm as u64),
        Instruction::Ori { imm, .. } => a | (imm as u64),
        Instruction::Andi { imm, .. } => a & (imm as u64),
        Instruction::Slli { shamt, .. } => a << shamt,
        Instruction::Srli { shamt, .. } => a >> shamt,
        Instruction::Srai { shamt, .. } => ((a as i64) >> shamt) as u64,
        Instruction::Addiw { imm, .. } => sext(a.wrapping_add(imm as u64), 31),
        Instruction::Slliw { shamt, .. } => sext(a << shamt, 31),
        Instruction::Srliw { shamt, .. } => sext(((a as u32) >> shamt) as u64, 31),
        Instruction::Sraiw { shamt, .. } => sext(((a as i32) >> shamt) as u64, 31),
        Instruction::Lui { imm, .. } => imm as u64,
        Instruction::Auipc { imm, .. } => pc.wrapping_add(imm as u64),
        Instruction::Mul { .. } => {
            let x: i64 = a as i64;
            let y: i64 = b as i64;
            assert(-0x4000_0000_0000_0000_0000_0000_0000_0000int <= (x as int) * (y as int) <= 0x4000_0000_0000_0000_0000_0000_0000_0000int) by (nonlinear_arith)
                requires -0x8000_0000_0000_0000int <= x < 0x8000_0000_0000_0000int, -0x8000_0000_0000_0000int <= y < 0x8000_0000_0000_0000int;
            let p: i128 = (x as i128) * (y as i128);
            p as u64
        },
        Instruction::Mulh { .. } => {
            let x: i64 = a as i64;
            let y: i64 = b as i64;
            assert(-0x4000_0000_0000_0000_0000_0000_0000_0000int <= (x as int) * (y as int) <= 0x4000_0000_0000_0000_0000_0000_0000_0000int) by (nonlinear_arith)
                requires -0x8000_0000_0000_0000int <= x < 0x8000_0000_0000_0000int, -0x8000_0000_0000_0000int <= y < 0x8000_0000_0000_0000int;
            high_half((x as i128) * (y as i128))
        },
        Instruction::Mulhsu { .. } => {
            let x: i64 = a as i64;
            assert(-0x8000_0000_0000_0000_0000_0000_0000_0000int < (x as int) * (b as int) < 0x8000_0000_0000_0000_0000_0000_0000_0000int) by (nonlinear_arith)
                requires -0x8000_0000_0000_0000int <= x < 0x8000_0000_0000_0000int, 0 <= b < 0x1_0000_0000_0000_0000int;
            high_half((x as i128) * (b as i128))
        },
        Instruction::Mulhu { .. } => mulhu(a, b),
        Instruction::Div { .. } => {
            let x: i64 = a as i64;
            let y: i64 = b as i64;
            if y == 0 { u64::MAX } else if x == i64::MIN && y == -1 { x as u64 } else { tdiv64(x, y) as u64 }
        },
        Instruction::Divu { .. } => if b == 0 { u64::MAX } else { a / b },
        Instruction::Rem { .. } => {
            let x: i64 = a as i64;
            let y: i64 = b as i64;
            if y == 0 { x as u64 } else if x == i64::MIN && y == -1 { 0 } else { trem64(x, y) as u64 }
        },
        Instruction::Remu { .. } => if b == 0 { a } else { a % b },
        Instruction::Mulw { .. } => sext(((a as i32).wrapping_mul(b as i32)) as u64, 31),
        Instruction::Divw { .. } => {
            let x: i32 = a as i32;
            let y: i32 = b as i32;
            if y == 0 { u64::MAX } else if x == i32::MIN && y == -1 { sext(x as u64, 31) } else { sext(tdiv32(x, y) as u64, 31) }
        },
        Instruction::Divuw { .. } => {
            let x: u32 = a as u32;
            let y: u32 = b as u32;
            if y == 0 { u64::MAX } else { sext((x / y) as u64, 31) }
        },
        Instruction::Remw { .. } => {
            let x: i32 = a as i32;
            let y: i32 = b as i32;
            if y == 0 { sext(x as u64, 31) } else if x == i32::MIN && y == -1 { 0 } else { sext(trem32(x, y) as u64, 31) }
        },
        Instruction::Remuw { .. } => {
            let x: u32 = a as u32;
            let y: u32 = b as u32;
            if y == 0 { sext(x as u64, 31) } else { sext((x % y) as u64, 31) }
        },
        _ => 0,
    }
}

/// The privilege level that loads and stores use.
pub(crate) fn ls_mode_of(cpu: &Cpu) -> (m: PrivMode)
    ensures
        m == ls_mode(cpu.hart()),
{
    let ms: u64 = cpu.csr.mstatus;
    if (ms >> 17) & 1 == 1 {
        let mpp: u64 = (ms >> 11) & 3;
        if mpp == 0 { PrivMode::U } else if mpp == 1 { PrivMode::S } else { PrivMode::M }
    } else {
        cpu.mode
    }
}

fn advance(cpu: &mut Cpu)
    ensures
        final(cpu).hart() == (Hart { pc: next_pc(old(cpu).hart()), ..old(cpu).hart() }),
        final(cpu).tracer == old(cpu).tracer,
{
    cpu.pc = cpu.pc.wrapping_add(cpu.inst_size);
}

fn exec_load(cpu: &mut Cpu, rd: usize, va: u64, width: usize, signed: bool)
    requires
        rd < 32,
        width == 1 || width == 2 || width == 4 || width == 8,
    ensures
        final(cpu).hart() == load_step(old(cpu).hart(), rd, va, width, signed),
        final(cpu).tracer == old(cpu).tracer,
{
    reveal(load_step);
    let mode = ls_mode_of(cpu);
    let next: u64 = cpu.pc.wrapping_add(cpu.inst_size);
    match cpu.mmu.translate(&mut cpu.bus, cpu.csr.satp, mode, cpu.csr.mstatus, va, AccessType::Load) {
        Err(f) => {
            cpu.deliver_trap(f.cause, f.tval);
        },
        Ok(pa) => match cpu.bus.load(pa, width) {
            Err(_) => {
                cpu.deliver_trap(5, va);
            },
            Ok(v) => {
                let val: u64 = if !signed || width == 8 {
                    v
                } else if width == 1 {
                    sext(v, 7)
                } else if width == 2 {
                    sext(v, 15)
                } else {
                    sext(v, 31)
                };
                cpu.set_reg(rd, val);
                cpu.pc = next;
            },
        },
    }
}

fn exec_store(cpu: &mut Cpu, va: u64, width: usize, value: u64)
    requires
        width == 1 || width == 2 || width == 4 || width == 8,
    ensures
        final(cpu).hart() == store_step(old(cpu).hart(), va, width, value),
        final(cpu).tracer == old(cpu).tracer,
{
    reveal(store_step);
    let mode = ls_mode_of(cpu);
    let next: u64 = cpu.pc.wrapping_add(cpu.inst_size);
    match cpu.mmu.translate(&mut cpu.bus, cpu.csr.satp, mode, cpu.csr.mstatus, va, AccessType::Store) {
        Err(f) => {
            cpu.deliver_trap(f.cause, f.tval);
        },
        Ok(pa) => match cpu.bus.store(pa, width, value) {
            Err(_) => {
                cpu.deliver_trap(7, va);
            },
            Ok(()) => {
                cpu.pc = next;
            },
        },
    }
}

fn exec_lr(cpu: &mut Cpu, rd: usize, va: u64, width: usize)
    requires
        rd < 32,
        width == 4 || width == 8,
    ensures
        final(cpu).hart() == lr_step(old(cpu).hart(), rd, va, width),
        final(cpu).tracer == old(cpu).tracer,
{
    reveal(lr_step);
    let mode = ls_mode_of(cpu);
    let next: u64 = cpu.pc.wrapping_add(cpu.inst_size);
    match cpu.mmu.translate(&mut cpu.bus, cpu.csr.satp, mode, cpu.csr.mstatus, va, AccessType::Load) {
        Err(f) => {
            cpu.deliver_trap(f.cause, f.tval);
        },
        Ok(pa) => match cpu.bus.load(pa, width) {
            Err(_) => {
                cpu.deliver_trap(5, va);
            },
            Ok(v) => {
                let val: u64 = if width == 8 { v } else { sext(v, 31) };
                cpu.set_reg(rd, val);
                cpu.reservation = Some(pa);
                cpu.pc = next;
            },
        },
    }
}

fn exec_sc(cpu: &mut Cpu, rd: usize, va: u64, width: usize, value: u64)
    requires
        rd < 32,
        width == 4 || width == 8,
    ensures
        final(cpu).hart() == sc_step(old(cpu).hart(), rd, va, width, value),
        final(cpu).tracer == old(cpu).tracer,
{
    reveal(sc_step);
    let mode = ls_mode_of(cpu);
    let next: u64 = cpu.pc.wrapping_add(cpu.inst_size);
    match cpu.mmu.translate(&mut cpu.bus, cpu.csr.satp, mode, cpu.csr.mstatus, va, AccessType::Store) {
        Err(f) => {
            cpu.deliver_trap(f.cause, f.tval);
        },
        Ok(pa) => {
            let reserved = match cpu.reservation {
                Some(r) => r == pa,
                None => false,
            };
            if reserved {
                let _ = cpu.bus.store(pa, width, value);
                cpu.set_reg(rd, 0);
            } else {
                cpu.set_reg(rd, 1);
            }
            cpu.reservation = None;
            cpu.pc = next;
        },
    }
}

fn amo_combine(op: AmoOp, prev: u64, src: u64, width: usize) -> (r: u64)
    requires
        width == 4 || width == 8,
    ensures
        r == amo_value(op, prev, src, width),
{
    match op {
        AmoOp::Swap => src,
        AmoOp::Add => prev.wrapping_add(src),
        AmoOp::Xor => prev ^ src,
        AmoOp::And => prev & src,
        AmoOp::Or => prev | src,
        AmoOp::Min => if width == 8 {
            if (prev as i64) < (src as i64) { prev } else { src }
        } else {
            if (prev as i32) < (src as i32) { prev } else { sext(src, 31) }
        },
        AmoOp::Max => if width == 8 {
            if (prev as i64) > (src as i64) { prev } else { src }
        } else {
            if (prev as i32) > (src as i32) { prev } else { sext(src, 31) }
        },
        AmoOp::Minu => if width == 8 {
            if prev < src { prev } else { src }
        } else {
            if (prev as u32) < (src as u32) { prev } else { (src as u32) as u64 }
        },
        AmoOp::Maxu => if width == 8 {
            if prev > src { prev } else { src }
        } else {
            if (prev as u32) > (src as u32) { prev } else { (src as u32) as u64 }
        },
    }
}

fn exec_amo(cpu: &mut Cpu, op: AmoOp, rd: usize, va: u64, width: usize, src: u64)
    requires
        rd < 32,
        width == 4 || width == 8,
    ensures
        final(cpu).hart() == amo_step(old(cpu).hart(), op, rd, va, width, src),
        final(cpu).tracer == old(cpu).tracer,
{
    reveal(amo_step);
    let mode = ls_mode_of(cpu);
    let next: u64 = cpu.pc.wrapping_add(cpu.inst_size);
    match cpu.mmu.translate(&mut cpu.bus, cpu.csr.satp, mode, cpu.csr.mstatus, va, AccessType::Store) {
        Err(f) => {
            cpu.deliver_trap(f.cause, f.tval);
        },
        Ok(pa) => {
            let raw: u64 = match cpu.bus.load(pa, width) {
                Ok(v) => v,
                Err(_) => 0,
            };
            let prev: u64 = if width == 4 { sext(raw, 31) } else { raw };
            let new: u64 = amo_combine(op, prev, src, width);
            let _ = cpu.bus.store(pa, width, new);
            cpu.set_reg(rd, prev);
            cpu.pc = next;
        },
    }
}

fn exec_branch(cpu: &mut Cpu, taken: bool, imm: i64)
    ensures
        final(cpu).hart() == branch_step(old(cpu).hart(), taken, imm),
        final(cpu).tracer == old(cpu).tracer,
{
    reveal(branch_step);
    if taken {
        let t: u64 = cpu.pc.wrapping_add(imm as u64);
        if t & 1 != 0 {
            cpu.deliver_trap(0, t);
        } else {
            cpu.pc = t;
        }
    } else {
        advance(cpu);
    }
}

fn exec_jump(cpu: &mut Cpu, rd: usize, target: u64)
    requires
        rd < 32,
    ensures
        final(cpu).hart() == jump_step(old(cpu).hart(), rd, target),
        final(cpu).tracer == old(cpu).tracer,
{
    reveal(jump_step);
    if target & 1 != 0 {
        cpu.deliver_trap(0, target);
    } else {
        let link: u64 = cpu.pc.wrapping_add(cpu.inst_size);
        cpu.set_reg(rd, link);
        cpu.pc = target;
    }
}

fn tvm_set(cpu: &Cpu) -> (r: bool)
    ensures
        r == tvm_trapped(cpu.hart()),
{
    cpu.mode == PrivMode::S && (cpu.csr.mstatus >> 20) & 1 != 0
}

fn exec_csr(cpu: &mut Cpu, rd: usize, csr: u16, prev: u64, write: bool, new_val: u64)
    requires
        rd < 32,
    ensures
        final(cpu).hart() == csr_step(old(cpu).hart(), rd, csr, prev, write, new_val),
        final(cpu).tracer == old(cpu).tracer,
{
    reveal(csr_step);
    if csr == 0x180 && tvm_set(cpu) {
        cpu.deliver_trap(2, 0);
    } else {
        if write {
            cpu.csr_write(csr, new_val);
        }
        cpu.set_reg(rd, prev);
        advance(cpu);
        if csr == 0x180 && write {
            cpu.mmu.flush();
            cpu.jit_invalidate = true;
            assert(cpu.mmu.tlb@ =~= flushed(old(cpu).mmu.tlb@));
        }
    }
}

fn exec_mret(cpu: &mut Cpu)
    ensures
        final(cpu).hart() == mret_step(old(cpu).hart()),
        final(cpu).tracer == old(cpu).tracer,
{
    reveal(mret_step);
    let mpp: u64 = (cpu.csr.mstatus >> 11) & 3;
    cpu.mode = if mpp == 0 { PrivMode::U } else if mpp == 1 { PrivMode::S } else { PrivMode::M };
    cpu.csr.mret();
    if mpp != 3 {
        cpu.csr.mstatus = cpu.csr.mstatus & !(1u64 << 17);
    }
    cpu.pc = cpu.csr.mepc;
}

fn exec_sret(cpu: &mut Cpu)
    ensures
        final(cpu).hart() == sret_step(old(cpu).hart()),
        final(cpu).tracer == old(cpu).tracer,
{
    reveal(sret_step);
    if cpu.mode == PrivMode::S && (cpu.csr.mstatus >> 22) & 1 != 0 {
        // TSR=1 in S-mode: SRET is an illegal instruction
        cpu.deliver_trap(2, 0x10200073);
    } else {
        let spp: u64 = (cpu.csr.mstatus >> 8) & 1;
        cpu.mode = if spp == 1 { PrivMode::S } else { PrivMode::U };
        cpu.csr.mstatus = cpu.csr.mstatus & !(1u64 << 17);
        cpu.csr.s_ret();
        cpu.pc = cpu.csr.sepc;
    }
}

fn exec_sfence(cpu: &mut Cpu)
    ensures
        final(cpu).hart() == (if tvm_trapped(old(cpu).hart()) { trap_spec(old(cpu).hart(), 2, 0) } else {
            Hart { tlb: flushed(old(cpu).hart().tlb), jit_invalidate: true, pc: next_pc(old(cpu).hart()), ..old(cpu).hart() }
        }),
        final(cpu).tracer == old(cpu).tracer,
{
    if tvm_set(cpu) {
        cpu.deliver_trap(2, 0);
    } else {
        // Flush the TLB and the compiled blocks: translations may have changed.
        cpu.mmu.flush();
        cpu.jit_invalidate = true;
        assert(cpu.mmu.tlb@ =~= flushed(old(cpu).mmu.tlb@));
        advance(cpu);
    }
}

/// Execute one decoded instruction, advancing pc (by `inst_size`, or to the
/// jump/branch target, or to the trap vector when the instruction traps).
pub fn execute(cpu: &mut Cpu, inst: Instruction) -> (r: Result<(), ExecError>)
    requires
        inst_wf(inst),
    ensures
        r is Err <==> is_fpu(inst),
        r matches Err(e) ==> e == (ExecError { pc: old(cpu).pc, inst }),
        final(cpu).hart() == exec_spec(old(cpu).hart(), inst),
        final(cpu).tracer == old(cpu).tracer,
{
    if is_fpu_inst(inst) {
        proof {
            lemma_fpu_leaves_hart(cpu.hart(), inst);
        }
        return Err(ExecError { pc: cpu.pc, inst });
    }
    if is_fp_inst(inst) {
        exec_fp_group(cpu, inst);
    } else if is_mem_inst(inst) {
        exec_mem_group(cpu, inst);
    } else if is_amo_inst(inst) {
        exec_amo_group(cpu, inst);
    } else if is_csr_inst(inst) {
        exec_csr_group(cpu, inst);
    } else if is_ctl_inst(inst) {
        exec_ctl_group(cpu, inst);
    } else {
        exec_alu_inst(cpu, inst);
    }
    Ok(())
}

fn exec_alu_inst(cpu: &mut Cpu, inst: Instruction)
    requires
        inst_wf(inst),
        !is_fp(inst),
        !is_fpu(inst),
        !is_mem(inst),
        !is_amo(inst),
        !is_csr(inst),
        !is_ctl(inst),
    ensures
        final(cpu).hart() == exec_spec(old(cpu).hart(), inst),
        final(cpu).tracer == old(cpu).tracer,
{
    reveal(exec_spec);
    reveal(exec_int_spec);
    assert(is_alu(inst));
    let (rd, rs1, rs2) = alu_regs_of(inst);
    let a: u64 = cpu.reg(rs1);
    let b: u64 = cpu.reg(rs2);
    let v: u64 = alu(inst, a, b, cpu.pc);
    cpu.set_reg(rd, v);
    advance(cpu);
}

proof fn lemma_fpu_leaves_hart(h: Hart, inst: Instruction)
    requires
        is_fpu(inst),
    ensures
        exec_spec(h, inst) == h,
{
    reveal(exec_spec);
}

fn is_fp_inst(inst: Instruction) -> (r: bool)
    ensures
        r == is_fp(inst),
{
    match inst {
        Instruction::Flw { .. } | Instruction::Fld { .. } | Instruction::Fsw { .. } | Instruction::Fsd { .. } | Instruction::FmvXW { .. } | Instruction::FmvXD { .. } | Instruction::FmvWX { .. } | Instruction::FmvDX { .. } | Instruction::FclassS { .. } | Instruction::FclassD { .. } | Instruction::FsgnjS { .. } | Instruction::FsgnjnS { .. } | Instruction::FsgnjxS { .. } | Instruction::FsgnjD { .. } | Instruction::FsgnjnD { .. } | Instruction::FsgnjxD { .. } => true,
        _ => false,
    }
}

fn is_fpu_inst(inst: Instruction) -> (r: bool)
    ensures
        r == is_fpu(inst),
{
    match inst {
        Instruction::FsqrtS { .. } | Instruction::FsqrtD { .. } | Instruction::FcvtSD { .. } | Instruction::FcvtDS { .. } | Instruction::FcvtWS { .. } | Instruction::FcvtWUS { .. } | Instruction::FcvtLS { .. } | Instruction::FcvtLUS { .. } | Instruction::FcvtWD { .. } | Instruction::FcvtWUD { .. } | Instruction::FcvtLD { .. } | Instruction::FcvtLUD { .. } | Instruction::FcvtSW { .. } | Instruction::FcvtSWU { .. } | Instruction::FcvtSL { .. } | Instruction::FcvtSLU { .. } | Instruction::FcvtDW { .. } | Instruction::FcvtDWU { .. } | Instruction::FcvtDL { .. } | Instruction::FcvtDLU { .. } | Instruction::FminS { .. } | Instruction::FmaxS { .. } | Instruction::FminD { .. } | Instruction::FmaxD { .. } | Instruction::FleS { .. } | Instruction::FltS { .. } | Instruction::FeqS { .. } | Instruction::FleD { .. } | Instruction::FltD { .. } | Instruction::FeqD { .. } | Instruction::FaddS { .. } | Instruction::FsubS { .. } | Instruction::FmulS { .. } | Instruction::FdivS { .. } | Instruction::FaddD { .. } | Instruction::FsubD { .. } | Instruction::FmulD { .. } | Instruction::FdivD { .. } | Instruction::FmaddS { .. } | Instruction::FmsubS { .. } | Instruction::FnmsubS { .. } | Instruction::FnmaddS { .. } | Instruction::FmaddD { .. } | Instruction::FmsubD { .. } | Instruction::FnmsubD { .. } | Instruction::FnmaddD { .. } => true,
        _ => false,
    }
}

fn f32_bits_of(v: u64) -> (r: u64)
    ensures
        r == f32_bits(v),
{
    if v >> 32 != 0xFFFF_FFFF { 0x7FC0_0000 } else { v & 0xFFFF_FFFF }
}

fn fclass32_of(b: u64) -> (r: u64)
    ensures
        r == fclass32(b),
{
    let sign: u64 = (b >> 31) & 1;
    let exp: u64 = (b >> 23) & 0xFF;
    let mant: u64 = b & 0x7F_FFFF;
    if exp == 0xFF && mant != 0 { if mant & 0x40_0000 != 0 { 1u64 << 9 } else { 1u64 << 8 } }
    else if exp == 0xFF { if sign != 0 { 1u64 << 0 } else { 1u64 << 7 } }
    else if exp == 0 && mant == 0 { if sign != 0 { 1u64 << 3 } else { 1u64 << 4 } }
    else if exp == 0 { if sign != 0 { 1u64 << 2 } else { 1u64 << 5 } }
    else if sign != 0 { 1u64 << 1 } else { 1u64 << 6 }
}

fn fclass64_of(b: u64) -> (r: u64)
    ensures
        r == fclass64(b),
{
    let sign: u64 = b >> 63;
    let exp: u64 = (b >> 52) & 0x7FF;
    let mant: u64 = b & 0x000F_FFFF_FFFF_FFFF;
    if exp == 0x7FF && mant != 0 { if mant & 0x0008_0000_0000_0000 != 0 { 1u64 << 9 } else { 1u64 << 8 } }
    else if exp == 0x7FF { if sign != 0 { 1u64 << 0 } else { 1u64 << 7 } }
    else if exp == 0 && mant == 0 { if sign != 0 { 1u64 << 3 } else { 1u64 << 4 } }
    else if exp == 0 { if sign != 0 { 1u64 << 2 } else { 1u64 << 5 } }
    else if sign != 0 { 1u64 << 1 } else { 1u64 << 6 }
}

fn exec_fload(cpu: &mut Cpu, fd: usize, va: u64, width: usize)
    requires
        fd < 32,
        width == 4 || width == 8,
    ensures
        final(cpu).hart() == fload_step(old(cpu).hart(), fd, va, width),
        final(cpu).tracer == old(cpu).tracer,
{
    reveal(fload_step);
    let mode = ls_mode_of(cpu);
    let next: u64 = cpu.pc.wrapping_add(cpu.inst_size);
    match cpu.mmu.translate(&mut cpu.bus, cpu.csr.satp, mode, cpu.csr.mstatus, va, AccessType::Load) {
        Err(f) => {
            cpu.deliver_trap(f.cause, f.tval);
        },
        Ok(pa) => match cpu.bus.load(pa, width) {
            Err(_) => {
                cpu.deliver_trap(5, va);
            },
            Ok(v) => {
                let val: u64 = if width == 4 { 0xFFFF_FFFF_0000_0000u64 | (v & 0xFFFF_FFFF) } else { v };
                cpu.fregs[fd] = val;
                cpu.pc = next;
            },
        },
    }
}

fn write_freg(cpu: &mut Cpu, rd: usize, v: u64)
    requires
        rd < 32,
    ensures
        final(cpu).hart() == (Hart {
            fregs: old(cpu).hart().fregs.update(rd as int, v),
            pc: next_pc(old(cpu).hart()),
            ..old(cpu).hart()
        }),
        final(cpu).tracer == old(cpu).tracer,
{
    cpu.fregs[rd] = v;
    advance(cpu);
}

fn write_xreg(cpu: &mut Cpu, rd: usize, v: u64)
    requires
        rd < 32,
    ensures
        final(cpu).hart() == (Hart {
            regs: set_xreg(old(cpu).hart().regs, rd, v),
            pc: next_pc(old(cpu).hart()),
            ..old(cpu).hart()
        }),
        final(cpu).tracer == old(cpu).tracer,
{
    cpu.set_reg(rd, v);
    advance(cpu);
}

fn exec_fp_group(cpu: &mut Cpu, inst: Instruction)
    requires
        inst_wf(inst),
        is_fp(inst),
    ensures
        final(cpu).hart() == exec_spec(old(cpu).hart(), inst),
        final(cpu).tracer == old(cpu).tracer,
{
    reveal(exec_spec);
    reveal(fp_step);
    match inst {
        Instruction::Flw { fd, rs1, imm } => { let va: u64 = cpu.reg(rs1).wrapping_add(imm as u64); exec_fload(cpu, fd, va, 4) },
        Instruction::Fld { fd, rs1, imm } => { let va: u64 = cpu.reg(rs1).wrapping_add(imm as u64); exec_fload(cpu, fd, va, 8) },
        Instruction::Fsw { rs1, fs2, imm } => { let va: u64 = cpu.reg(rs1).wrapping_add(imm as u64); let v: u64 = cpu.fregs[fs2]; exec_store(cpu, va, 4, v) },
        Instruction::Fsd { rs1, fs2, imm } => { let va: u64 = cpu.reg(rs1).wrapping_add(imm as u64); let v: u64 = cpu.fregs[fs2]; exec_store(cpu, va, 8, v) },
        Instruction::FmvXW { rd, rs1 } => { let v: u64 = sext(cpu.fregs[rs1] & 0xFFFF_FFFF, 31); write_xreg(cpu, rd, v) },
        Instruction::FmvXD { rd, rs1 } => { let v: u64 = cpu.fregs[rs1]; write_xreg(cpu, rd, v) },
        Instruction::FmvWX { rd, rs1 } => { let v: u64 = 0xFFFF_FFFF_0000_0000u64 | (cpu.reg(rs1) & 0xFFFF_FFFF); write_freg(cpu, rd, v) },
        Instruction::FmvDX { rd, rs1 } => { let v: u64 = cpu.reg(rs1); write_freg(cpu, rd, v) },
        Instruction::FclassS { rd, rs1 } => { let v: u64 = fclass32_of(f32_bits_of(cpu.fregs[rs1])); write_xreg(cpu, rd, v) },
        Instruction::FclassD { rd, rs1 } => { let v: u64 = fclass64_of(cpu.fregs[rs1]); write_xreg(cpu, rd, v) },
        Instruction::FsgnjS { rd, rs1, rs2 } => {
            let v: u64 = (f32_bits_of(cpu.fregs[rs1]) & 0x7FFF_FFFF) | (f32_bits_of(cpu.fregs[rs2]) & 0x8000_0000);
            write_freg(cpu, rd, 0xFFFF_FFFF_0000_0000u64 | (v & 0xFFFF_FFFF))
        },
        Instruction::FsgnjnS { rd, rs1, rs2 } => {
            let v: u64 = (f32_bits_of(cpu.fregs[rs1]) & 0x7FFF_FFFF) | (!f32_bits_of(cpu.fregs[rs2]) & 0x8000_0000);
            write_freg(cpu, rd, 0xFFFF_FFFF_0000_0000u64 | (v & 0xFFFF_FFFF))
        },
        Instruction::FsgnjxS { rd, rs1, rs2 } => {
            let v: u64 = f32_bits_of(cpu.fregs[rs1]) ^ (f32_bits_of(cpu.fregs[rs2]) & 0x8000_0000);
            write_freg(cpu, rd, 0xFFFF_FFFF_0000_0000u64 | (v & 0xFFFF_FFFF))
        },
        Instruction::FsgnjD { rd, rs1, rs2 } => {
            let v: u64 = (cpu.fregs[rs1] & 0x7FFF_FFFF_FFFF_FFFF) | (cpu.fregs[rs2] & 0x8000_0000_0000_0000);
            write_freg(cpu, rd, v)
        },
        Instruction::FsgnjnD { rd, rs1, rs2 } => {
            let v: u64 = (cpu.fregs[rs1] & 0x7FFF_FFFF_FFFF_FFFF) | (!cpu.fregs[rs2] & 0x8000_0000_0000_0000);
            write_freg(cpu, rd, v)
        },
        Instruction::FsgnjxD { rd, rs1, rs2 } => {
            let v: u64 = cpu.fregs[rs1] ^ (cpu.fregs[rs2] & 0x8000_0000_0000_0000);
            write_freg(cpu, rd, v)
        },
        _ => {},
    }
}

/// Finish a floating-point instruction that `execute` left to the caller: write
/// `value` (the result bits, NaN-boxed for single precision) to its destination,
/// an integer register for comparisons and conversions to integers, else an f
/// register, and move to the next instruction.
pub fn complete_fpu(cpu: &mut Cpu, inst: Instruction, value: u64)
    requires
        inst_wf(inst),
        is_fpu(inst),
    ensures
        final(cpu).hart() == fpu_complete_spec(old(cpu).hart(), inst, value),
        final(cpu).tracer == old(cpu).tracer,
{
    let to_x = match inst {
        Instruction::FleS { .. } | Instruction::FltS { .. } | Instruction::FeqS { .. } | Instruction::FleD { .. } | Instruction::FltD { .. } | Instruction::FeqD { .. } | Instruction::FcvtWS { .. } | Instruction::FcvtWUS { .. } | Instruction::FcvtLS { .. } | Instruction::FcvtLUS { .. } | Instruction::FcvtWD { .. } | Instruction::FcvtWUD { .. } | Instruction::FcvtLD { .. } | Instruction::FcvtLUD { .. } => true,
        _ => false,
    };
    let rd: usize = match inst {
        Instruction::FsqrtS { rd, .. } | Instruction::FsqrtD { rd, .. } | Instruction::FcvtSD { rd, .. } | Instruction::FcvtDS { rd, .. } | Instruction::FcvtWS { rd, .. } | Instruction::FcvtWUS { rd, .. } | Instruction::FcvtLS { rd, .. } | Instruction::FcvtLUS { rd, .. } | Instruction::FcvtWD { rd, .. } | Instruction::FcvtWUD { rd, .. } | Instruction::FcvtLD { rd, .. } | Instruction::FcvtLUD { rd, .. } | Instruction::FcvtSW { rd, .. } | Instruction::FcvtSWU { rd, .. } | Instruction::FcvtSL { rd, .. } | Instruction::FcvtSLU { rd, .. } | Instruction::FcvtDW { rd, .. } | Instruction::FcvtDWU { rd, .. } | Instruction::FcvtDL { rd, .. } | Instruction::FcvtDLU { rd, .. } | Instruction::FminS { rd, .. } | Instruction::FmaxS { rd, .. } | Instruction::FminD { rd, .. } | Instruction::FmaxD { rd, .. } | Instruction::FleS { rd, .. } | Instruction::FltS { rd, .. } | Instruction::FeqS { rd, .. } | Instruction::FleD { rd, .. } | Instruction::FltD { rd, .. } | Instruction::FeqD { rd, .. } | Instruction::FaddS { rd, .. } | Instruction::FsubS { rd, .. } | Instruction::FmulS { rd, .. } | Instruction::FdivS { rd, .. } | Instruction::FaddD { rd, .. } | Instruction::FsubD { rd, .. } | Instruction::FmulD { rd, .. } | Instruction::FdivD { rd, .. } | Instruction::FmaddS { rd, .. } | Instruction::FmsubS { rd, .. } | Instruction::FnmsubS { rd, .. } | Instruction::FnmaddS { rd, .. } | Instruction::FmaddD { rd, .. } | Instruction::FmsubD { rd, .. } | Instruction::FnmsubD { rd, .. } | Instruction::FnmaddD { rd, .. } => rd,
        _ => 0,
    };
    if to_x {
        write_xreg(cpu, rd, value);
    } else {
        write_freg(cpu, rd, value);
    }
}

fn is_mem_inst(inst: Instruction) -> (r: bool)
    ensures
        r == is_mem(inst),
{
    match inst {
        Instruction::Lb { .. } | Instruction::Lh { .. } | Instruction::Lw { .. } | Instruction::Ld { .. } | Instruction::Lbu { .. } | Instruction::Lhu { .. } | Instruction::Lwu { .. } | Instruction::Sb { .. } | Instruction::Sh { .. } | Instruction::Sw { .. } | Instruction::Sd { .. } | Instruction::LrD { .. } | Instruction::LrW { .. } | Instruction::ScD { .. } | Instruction::ScW { .. } => true,
        _ => false,
    }
}

fn is_amo_inst(inst: Instruction) -> (r: bool)
    ensures
        r == is_amo(inst),
{
    match inst {
        Instruction::AmoswapD { .. } | Instruction::AmoswapW { .. } | Instruction::AmoaddD { .. } | Instruction::AmoaddW { .. } | Instruction::AmoxorD { .. } | Instruction::AmoxorW { .. } | Instruction::AmoandD { .. } | Instruction::AmoandW { .. } | Instruction::AmoorD { .. } | Instruction::AmoorW { .. } | Instruction::AmominD { .. } | Instruction::AmominW { .. } | Instruction::AmomaxD { .. } | Instruction::AmomaxW { .. } | Instruction::AmominuD { .. } | Instruction::AmominuW { .. } | Instruction::AmomaxuD { .. } | Instruction::AmomaxuW { .. } => true,
        _ => false,
    }
}

fn is_csr_inst(inst: Instruction) -> (r: bool)
    ensures
        r == is_csr(inst),
{
    match inst {
        Instruction::Csrrw { .. } | Instruction::Csrrs { .. } | Instruction::Csrrc { .. } | Instruction::Csrrwi { .. } | Instruction::Csrrsi { .. } | Instruction::Csrrci { .. } => true,
        _ => false,
    }
}

fn is_ctl_inst(inst: Instruction) -> (r: bool)
    ensures
        r == is_ctl(inst),
{
    match inst {
        Instruction::Beq { .. } | Instruction::Bne { .. } | Instruction::Blt { .. } | Instruction::Bge { .. } | Instruction::Bltu { .. } | Instruction::Bgeu { .. } | Instruction::Jal { .. } | Instruction::Jalr { .. } | Instruction::Fence | Instruction::FenceI | Instruction::Wfi | Instruction::Ecall | Instruction::Ebreak | Instruction::Mret | Instruction::Sret | Instruction::SfenceVma => true,
        _ => false,
    }
}

#[verifier::rlimit(60)]
fn exec_mem_group(cpu: &mut Cpu, inst: Instruction)
    requires
        inst_wf(inst),
        is_mem(inst),
    ensures
        final(cpu).hart() == exec_spec(old(cpu).hart(), inst),
        final(cpu).tracer == old(cpu).tracer,
{
    reveal(exec_spec);
    reveal(exec_int_spec);
    match inst {
        Instruction::Lb { rd, rs1, imm } => { let va: u64 = cpu.reg(rs1).wrapping_add(imm as u64); exec_load(cpu, rd, va, 1, true) },
        Instruction::Lh { rd, rs1, imm } => { let va: u64 = cpu.reg(rs1).wrapping_add(imm as u64); exec_load(cpu, rd, va, 2, true) },
        Instruction::Lw { rd, rs1, imm } => { let va: u64 = cpu.reg(rs1).wrapping_add(imm as u64); exec_load(cpu, rd, va, 4, true) },
        Instruction::Ld { rd, rs1, imm } => { let va: u64 = cpu.reg(rs1).wrapping_add(imm as u64); exec_load(cpu, rd, va, 8, true) },
        Instruction::Lbu { rd, rs1, imm } => { let va: u64 = cpu.reg(rs1).wrapping_add(imm as u64); exec_load(cpu, rd, va, 1, false) },
        Instruction::Lhu { rd, rs1, imm } => { let va: u64 = cpu.reg(rs1).wrapping_add(imm as u64); exec_load(cpu, rd, va, 2, false) },
        Instruction::Lwu { rd, rs1, imm } => { let va: u64 = cpu.reg(rs1).wrapping_add(imm as u64); exec_load(cpu, rd, va, 4, false) },
        Instruction::Sb { rs1, rs2, imm } => { let va: u64 = cpu.reg(rs1).wrapping_add(imm as u64); let v: u64 = cpu.reg(rs2); exec_store(cpu, va, 1, v) },
        Instruction::Sh { rs1, rs2, imm } => { let va: u64 = cpu.reg(rs1).wrapping_add(imm as u64); let v: u64 = cpu.reg(rs2); exec_store(cpu, va, 2, v) },
        Instruction::Sw { rs1, rs2, imm } => { let va: u64 = cpu.reg(rs1).wrapping_add(imm as u64); let v: u64 = cpu.reg(rs2); exec_store(cpu, va, 4, v) },
        Instruction::Sd { rs1, rs2, imm } => { let va: u64 = cpu.reg(rs1).wrapping_add(imm as u64); let v: u64 = cpu.reg(rs2); exec_store(cpu, va, 8, v) },
        Instruction::LrD { rd, rs1 } => { let va: u64 = cpu.reg(rs1); exec_lr(cpu, rd, va, 8) },
        Instruction::LrW { rd, rs1 } => { let va: u64 = cpu.reg(rs1); exec_lr(cpu, rd, va, 4) },
        Instruction::ScD { rd, rs1, rs2 } => { let va: u64 = cpu.reg(rs1); let v: u64 = cpu.reg(rs2); exec_sc(cpu, rd, va, 8, v) },
        Instruction::ScW { rd, rs1, rs2 } => { let va: u64 = cpu.reg(rs1); let v: u64 = cpu.reg(rs2); exec_sc(cpu, rd, va, 4, v) },
        _ => {},
    }
}

/// The doubleword AMOs.
pub open spec fn amo_wide(inst: Instruction) -> bool {
    match inst {
        Instruction::AmoswapD { .. } | Instruction::AmoaddD { .. } | Instruction::AmoxorD { .. } | Instruction::AmoandD { .. } | Instruction::AmoorD { .. } | Instruction::AmominD { .. } | Instruction::AmomaxD { .. } | Instruction::AmominuD { .. } | Instruction::AmomaxuD { .. } => true,
        _ => false,
    }
}

fn exec_amo_group(cpu: &mut Cpu, inst: Instruction)
    requires
        inst_wf(inst),
        is_amo(inst),
    ensures
        final(cpu).hart() == exec_spec(old(cpu).hart(), inst),
        final(cpu).tracer == old(cpu).tracer,
{
    match inst {
        Instruction::AmoswapD { .. } | Instruction::AmoaddD { .. } | Instruction::AmoxorD { .. } | Instruction::AmoandD { .. } | Instruction::AmoorD { .. } | Instruction::AmominD { .. } | Instruction::AmomaxD { .. } | Instruction::AmominuD { .. } | Instruction::AmomaxuD { .. } => exec_amo_d(cpu, inst),
        _ => exec_amo_w(cpu, inst),
    }
}

#[verifier::rlimit(50)]
fn exec_amo_d(cpu: &mut Cpu, inst: Instruction)
    requires
        inst_wf(inst),
        is_amo(inst),
        amo_wide(inst),
    ensures
        final(cpu).hart() == exec_spec(old(cpu).hart(), inst),
        final(cpu).tracer == old(cpu).tracer,
{
    reveal(exec_spec);
    reveal(exec_int_spec);
    match inst {
        Instruction::AmoswapD { rd, rs1, rs2 } => amo_regs(cpu, AmoOp::Swap, rd, rs1, rs2, 8),
        Instruction::AmoaddD { rd, rs1, rs2 } => amo_regs(cpu, AmoOp::Add, rd, rs1, rs2, 8),
        Instruction::AmoxorD { rd, rs1, rs2 } => amo_regs(cpu, AmoOp::Xor, rd, rs1, rs2, 8),
        Instruction::AmoandD { rd, rs1, rs2 } => amo_regs(cpu, AmoOp::And, rd, rs1, rs2, 8),
        Instruction::AmoorD { rd, rs1, rs2 } => amo_regs(cpu, AmoOp::Or, rd, rs1, rs2, 8),
        Instruction::AmominD { rd, rs1, rs2 } => amo_regs(cpu, AmoOp::Min, rd, rs1, rs2, 8),
        Instruction::AmomaxD { rd, rs1, rs2 } => amo_regs(cpu, AmoOp::Max, rd, rs1, rs2, 8),
        Instruction::AmominuD { rd, rs1, rs2 } => amo_regs(cpu, AmoOp::Minu, rd, rs1, rs2, 8),
        Instruction::AmomaxuD { rd, rs1, rs2 } => amo_regs(cpu, AmoOp::Maxu, rd, rs1, rs2, 8),
        _ => {},
    }
}

#[verifier::rlimit(50)]
fn exec_amo_w(cpu: &mut Cpu, inst: Instruction)
    requires
        inst_wf(inst),
        is_amo(inst),
        !amo_wide(inst),
    ensures
        final(cpu).hart() == exec_spec(old(cpu).hart(), inst),
        final(cpu).tracer == old(cpu).tracer,
{
    reveal(exec_spec);
    reveal(exec_int_spec);
    match inst {
        Instruction::AmoswapW { rd, rs1, rs2 } => amo_regs(cpu, AmoOp::Swap, rd, rs1, rs2, 4),
        Instruction::AmoaddW { rd, rs1, rs2 } => amo_regs(cpu, AmoOp::Add, rd, rs1, rs2, 4),
        Instruction::AmoxorW { rd, rs1, rs2 } => amo_regs(cpu, AmoOp::Xor, rd, rs1, rs2, 4),
        Instruction::AmoandW { rd, rs1, rs2 } => amo_regs(cpu, AmoOp::And, rd, rs1, rs2, 4),
        Instruction::AmoorW { rd, rs1, rs2 } => amo_regs(cpu, AmoOp::Or, rd, rs1, rs2, 4),
        Instruction::AmominW { rd, rs1, rs2 } => amo_regs(cpu, AmoOp::Min, rd, rs1, rs2, 4),
        Instruction::AmomaxW { rd, rs1, rs2 } => amo_regs(cpu, AmoOp::Max, rd, rs1, rs2, 4),
        Instruction::AmominuW { rd, rs1, rs2 } => amo_regs(cpu, AmoOp::Minu, rd, rs1, rs2, 4),
        Instruction::AmomaxuW { rd, rs1, rs2 } => amo_regs(cpu, AmoOp::Maxu, rd, rs1, rs2, 4),
        _ => {},
    }
}

fn exec_csr_group(cpu: &mut Cpu, inst: Instruction)
    requires
        inst_wf(inst),
        is_csr(inst),
    ensures
        final(cpu).hart() == exec_spec(old(cpu).hart(), inst),
        final(cpu).tracer == old(cpu).tracer,
{
    reveal(exec_spec);
    reveal(exec_int_spec);
    match inst {
        Instruction::Csrrw { rd, rs1, csr } => {
            let new_val: u64 = cpu.reg(rs1);
            let prev: u64 = if rd != 0 { cpu.csr_read(csr) } else { 0 };
            exec_csr(cpu, rd, csr, prev, true, new_val)
        },
        Instruction::Csrrs { rd, rs1, csr } => {
            let prev: u64 = cpu.csr_read(csr);
            let mask: u64 = cpu.reg(rs1);
            exec_csr(cpu, rd, csr, prev, rs1 != 0, prev | mask)
        },
        Instruction::Csrrc { rd, rs1, csr } => {
            let prev: u64 = cpu.csr_read(csr);
            let mask: u64 = cpu.reg(rs1);
            exec_csr(cpu, rd, csr, prev, rs1 != 0, prev & !mask)
        },
        Instruction::Csrrwi { rd, uimm, csr } => {
            let prev: u64 = if rd != 0 { cpu.csr_read(csr) } else { 0 };
            exec_csr(cpu, rd, csr, prev, true, uimm as u64)
        },
        Instruction::Csrrsi { rd, uimm, csr } => {
            let prev: u64 = cpu.csr_read(csr);
            exec_csr(cpu, rd, csr, prev, uimm != 0, prev | uimm as u64)
        },
        Instruction::Csrrci { rd, uimm, csr } => {
            let prev: u64 = cpu.csr_read(csr);
            exec_csr(cpu, rd, csr, prev, uimm != 0, prev & !(uimm as u64))
        },
        _ => {},
    }
}

#[verifier::rlimit(50)]
fn exec_ctl_group(cpu: &mut Cpu, inst: Instruction)
    requires
        inst_wf(inst),
        is_ctl(inst),
    ensures
        final(cpu).hart() == exec_spec(old(cpu).hart(), inst),
        final(cpu).tracer == old(cpu).tracer,
{
    reveal(exec_spec);
    reveal(exec_int_spec);
    match inst {
        Instruction::Beq { rs1, rs2, imm } => { let t = cpu.reg(rs1) == cpu.reg(rs2); exec_branch(cpu, t, imm) },
        Instruction::Bne { rs1, rs2, imm } => { let t = cpu.reg(rs1) != cpu.reg(rs2); exec_branch(cpu, t, imm) },
        Instruction::Blt { rs1, rs2, imm } => { let t = (cpu.reg(rs1) as i64) < (cpu.reg(rs2) as i64); exec_branch(cpu, t, imm) },
        Instruction::Bge { rs1, rs2, imm } => { let t = (cpu.reg(rs1) as i64) >= (cpu.reg(rs2) as i64); exec_branch(cpu, t, imm) },
        Instruction::Bltu { rs1, rs2, imm } => { let t = cpu.reg(rs1) < cpu.reg(rs2); exec_branch(cpu, t, imm) },
        Instruction::Bgeu { rs1, rs2, imm } => { let t = cpu.reg(rs1) >= cpu.reg(rs2); exec_branch(cpu, t, imm) },
        Instruction::Jal { rd, imm } => { let t: u64 = cpu.pc.wrapping_add(imm as u64); exec_jump(cpu, rd, t) },
        Instruction::Jalr { rd, rs1, imm } => { let t: u64 = cpu.reg(rs1).wrapping_add(imm as u64) & !1u64; exec_jump(cpu, rd, t) },
        Instruction::Fence | Instruction::Wfi => advance(cpu),
        Instruction::FenceI => {
            cpu.fence_i_pending = true;
            advance(cpu)
        },
        Instruction::Ecall => {
            let cause: u64 = match cpu.mode {
                PrivMode::U => 8,
                PrivMode::S => 9,
                PrivMode::M => 11,
            };
            cpu.deliver_trap(cause, 0);
        },
        Instruction::Ebreak => { let pc: u64 = cpu.pc; cpu.deliver_trap(3, pc) },
        Instruction::Mret => exec_mret(cpu),
        Instruction::Sret => exec_sret(cpu),
        Instruction::SfenceVma => exec_sfence(cpu),
        _ => {},
    }
}

fn amo_regs(cpu: &mut Cpu, op: AmoOp, rd: usize, rs1: usize, rs2: usize, width: usize)
    requires
        rd < 32,
        rs1 < 32,
        rs2 < 32,
        width == 4 || width == 8,
    ensures
        final(cpu).hart() == amo_step(old(cpu).hart(), op, rd, xreg(old(cpu).hart(), rs1), width, xreg(old(cpu).hart(), rs2)),
        final(cpu).tracer == old(cpu).tracer,
{
    let va: u64 = cpu.reg(rs1);
    let src: u64 = cpu.reg(rs2);
    exec_amo(cpu, op, rd, va, width, src)
}

} // verus!
