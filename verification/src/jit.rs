use vstd::prelude::*;
use crate::bus::valid_width;
use crate::cpu::{Cpu, Hart, phys_load, phys_store};
use crate::cpu::decode::{decode, decode_rvc, decode_spec, decode_rvc_spec, Instruction};
use crate::cpu::mmu::{AccessType, translate_spec};
use crate::cpu::execute::{data_translate, ls_mode_of};
use std::collections::HashMap;

verus! {

// Memory access for compiled code: translate as the interpreter does for a load
// or store (the privilege that mstatus.MPRV selects, and satp), then go through the bus (RAM or a device register). A fault is
// reported by the sentinel u64::MAX (the compiled block then falls back to the
// interpreter, which takes the trap).

/// The hart after translating `addr` for `access` (TLB refill, A/D bits), and the result.
pub open spec fn callout_translate(h: Hart, addr: u64, access: AccessType) -> (Option<u64>, Hart) {
    let (tr, h2) = data_translate(h, addr, access);
    (match tr { Ok(pa) => Some(pa), Err(_) => None }, h2)
}

/// A load of `width` bytes at virtual `addr`: the zero-extended value, or
/// u64::MAX when translation faults or the physical address hits nothing.
pub open spec fn callout_load_spec(h: Hart, addr: u64, width: usize) -> (u64, Hart) {
    let (pa, h2) = callout_translate(h, addr, AccessType::Load);
    match pa {
        None => (u64::MAX, h2),
        Some(pa) => match phys_load(h2, pa, width) {
            (Some(v), h3) => (v, h3),
            (None, h3) => (u64::MAX, h3),
        },
    }
}

/// A store of the low `width` bytes of `val` at virtual `addr`: 0 on success,
/// u64::MAX when translation faults or the physical address hits nothing.
pub open spec fn callout_store_spec(h: Hart, addr: u64, width: usize, val: u64) -> (u64, Hart) {
    let (pa, h2) = callout_translate(h, addr, AccessType::Store);
    match pa {
        None => (u64::MAX, h2),
        Some(pa) => match phys_store(h2, pa, width, val) {
            Some(h3) => (0, h3),
            None => (u64::MAX, h2),
        },
    }
}

fn callout_load(cpu: &mut Cpu, addr: u64, width: usize) -> (r: u64)
    requires
        valid_width(width),
    ensures
        (r, final(cpu).hart()) == callout_load_spec(old(cpu).hart(), addr, width),
        final(cpu).tracer == old(cpu).tracer,
{
    let mode = ls_mode_of(cpu);
    let pa = match cpu.mmu.translate(&mut cpu.bus, cpu.csr.satp, mode, cpu.csr.mstatus, addr, AccessType::Load) {
        Ok(pa) => pa,
        Err(_) => {
            return u64::MAX;
        },
    };
    match cpu.bus.load(pa, width) {
        Ok(v) => v,
        Err(_) => u64::MAX,
    }
}

fn callout_store(cpu: &mut Cpu, addr: u64, width: usize, val: u64) -> (r: u64)
    requires
        valid_width(width),
    ensures
        (r, final(cpu).hart()) == callout_store_spec(old(cpu).hart(), addr, width, val),
        final(cpu).tracer == old(cpu).tracer,
{
    let mode = ls_mode_of(cpu);
    let pa = match cpu.mmu.translate(&mut cpu.bus, cpu.csr.satp, mode, cpu.csr.mstatus, addr, AccessType::Store) {
        Ok(pa) => pa,
        Err(_) => {
            return u64::MAX;
        },
    };
    match cpu.bus.store(pa, width, val) {
        Ok(_) => 0,
        Err(_) => u64::MAX,
    }
}

/// Load 1 byte (zero-extended); u64::MAX on a fault.
pub fn jit_load8(cpu: &mut Cpu, addr: u64) -> (r: u64)
    ensures
        (r, final(cpu).hart()) == callout_load_spec(old(cpu).hart(), addr, 1usize),
        final(cpu).tracer == old(cpu).tracer,
{
    callout_load(cpu, addr, 1)
}

/// Load 2 bytes (zero-extended); u64::MAX on a fault.
pub fn jit_load16(cpu: &mut Cpu, addr: u64) -> (r: u64)
    ensures
        (r, final(cpu).hart()) == callout_load_spec(old(cpu).hart(), addr, 2usize),
        final(cpu).tracer == old(cpu).tracer,
{
    callout_load(cpu, addr, 2)
}

/// Load 4 bytes (zero-extended); u64::MAX on a fault.
pub fn jit_load32(cpu: &mut Cpu, addr: u64) -> (r: u64)
    ensures
        (r, final(cpu).hart()) == callout_load_spec(old(cpu).hart(), addr, 4usize),
        final(cpu).tracer == old(cpu).tracer,
{
    callout_load(cpu, addr, 4)
}

/// Load 8 bytes; u64::MAX on a fault.
pub fn jit_load64(cpu: &mut Cpu, addr: u64) -> (r: u64)
    ensures
        (r, final(cpu).hart()) == callout_load_spec(old(cpu).hart(), addr, 8usize),
        final(cpu).tracer == old(cpu).tracer,
{
    callout_load(cpu, addr, 8)
}

/// Store 1 byte; 0 on success, u64::MAX on a fault.
pub fn jit_store8(cpu: &mut Cpu, addr: u64, val: u64) -> (r: u64)
    ensures
        (r, final(cpu).hart()) == callout_store_spec(old(cpu).hart(), addr, 1usize, val),
        final(cpu).tracer == old(cpu).tracer,
{
    callout_store(cpu, addr, 1, val)
}

/// Store 2 bytes; 0 on success, u64::MAX on a fault.
pub fn jit_store16(cpu: &mut Cpu, addr: u64, val: u64) -> (r: u64)
    ensures
        (r, final(cpu).hart()) == callout_store_spec(old(cpu).hart(), addr, 2usize, val),
        final(cpu).tracer == old(cpu).tracer,
{
    callout_store(cpu, addr, 2, val)
}

/// Store 4 bytes; 0 on success, u64::MAX on a fault.
pub fn jit_store32(cpu: &mut Cpu, addr: u64, val: u64) -> (r: u64)
    ensures
        (r, final(cpu).hart()) == callout_store_spec(old(cpu).hart(), addr, 4usize, val),
        final(cpu).tracer == old(cpu).tracer,
{
    callout_store(cpu, addr, 4, val)
}

/// Store 8 bytes; 0 on success, u64::MAX on a fault.
pub fn jit_store64(cpu: &mut Cpu, addr: u64, val: u64) -> (r: u64)
    ensures
        (r, final(cpu).hart()) == callout_store_spec(old(cpu).hart(), addr, 8usize, val),
        final(cpu).tracer == old(cpu).tracer,
{
    callout_store(cpu, addr, 8, val)
}

// Block planning for the compiler: starting at a guest pc, instructions are
// fetched (as the interpreter fetches them, without MPRV) and decoded until one
// ends the block (a branch or jump), one is left to the interpreter, a fetch
// fails, or MAX_BLOCK_INSTS instructions were taken.

/// The most instructions a compiled block holds; a block that reaches it
/// returns to the pc after its last instruction.
pub const MAX_BLOCK_INSTS: u64 = 64;

/// How a compiled block treats an instruction.
#[derive(Debug, Clone, Copy, PartialEq, Eq, Structural)]
pub enum BlockRole {
    /// Compiled in line; the block goes on with the next instruction.
    Inline,
    /// Compiled as the block's last instruction (a branch or jump).
    Ends,
    /// Left to the interpreter: the block stops before it.
    Slow,
}

/// The role of a 32-bit instruction in a block.
#[verifier::opaque]
pub open spec fn full_role(inst: Instruction) -> BlockRole {
    match inst {
        Instruction::Add { .. }
        | Instruction::Addi { .. }
        | Instruction::Addiw { .. }
        | Instruction::Addw { .. }
        | Instruction::And { .. }
        | Instruction::Andi { .. }
        | Instruction::Auipc { .. }
        | Instruction::Div { .. }
        | Instruction::Divu { .. }
        | Instruction::Divuw { .. }
        | Instruction::Divw { .. }
        | Instruction::Lb { .. }
        | Instruction::Lbu { .. }
        | Instruction::Ld { .. }
        | Instruction::Lh { .. }
        | Instruction::Lhu { .. }
        | Instruction::Lui { .. }
        | Instruction::Lw { .. }
        | Instruction::Lwu { .. }
        | Instruction::Mul { .. }
        | Instruction::Mulh { .. }
        | Instruction::Mulhsu { .. }
        | Instruction::Mulhu { .. }
        | Instruction::Mulw { .. }
        | Instruction::Or { .. }
        | Instruction::Ori { .. }
        | Instruction::Rem { .. }
        | Instruction::Remu { .. }
        | Instruction::Remuw { .. }
        | Instruction::Remw { .. }
        | Instruction::Sb { .. }
        | Instruction::Sd { .. }
        | Instruction::Sh { .. }
        | Instruction::Sll { .. }
        | Instruction::Slli { .. }
        | Instruction::Slliw { .. }
        | Instruction::Sllw { .. }
        | Instruction::Slt { .. }
        | Instruction::Slti { .. }
        | Instruction::Sltiu { .. }
        | Instruction::Sltu { .. }
        | Instruction::Sra { .. }
        | Instruction::Srai { .. }
        | Instruction::Sraiw { .. }
        | Instruction::Sraw { .. }
        | Instruction::Srl { .. }
        | Instruction::Srli { .. }
        | Instruction::Srliw { .. }
        | Instruction::Srlw { .. }
        | Instruction::Sub { .. }
        | Instruction::Subw { .. }
        | Instruction::Sw { .. }
        | Instruction::Xor { .. }
        | Instruction::Xori { .. } => BlockRole::Inline,
        Instruction::Beq { .. }
        | Instruction::Bne { .. }
        | Instruction::Blt { .. }
        | Instruction::Bge { .. }
        | Instruction::Bltu { .. }
        | Instruction::Bgeu { .. }
        | Instruction::Jal { .. }
        | Instruction::Jalr { .. } => BlockRole::Ends,
        _ => BlockRole::Slow,
    }
}

/// The role of a compressed instruction (as the instruction it stands for) in a block.
#[verifier::opaque]
pub open spec fn compressed_role(inst: Instruction) -> BlockRole {
    match inst {
        Instruction::Lui { rd, .. } => if rd != 0 { BlockRole::Inline } else { BlockRole::Slow },
        Instruction::Addi { .. }
        | Instruction::Addiw { .. }
        | Instruction::Ld { .. }
        | Instruction::Sd { .. }
        | Instruction::Slli { .. }
        | Instruction::Srli { .. }
        | Instruction::Srai { .. }
        | Instruction::Andi { .. }
        | Instruction::Sub { .. }
        | Instruction::Xor { .. }
        | Instruction::Or { .. }
        | Instruction::And { .. }
        | Instruction::Subw { .. }
        | Instruction::Addw { .. }
        | Instruction::Add { .. } => BlockRole::Inline,
        Instruction::Jal { .. }
        | Instruction::Beq { .. }
        | Instruction::Bne { .. }
        | Instruction::Jalr { .. } => BlockRole::Ends,
        _ => BlockRole::Slow,
    }
}

/// The role of `inst`, compressed or not.
pub open spec fn role_of(inst: Instruction, compressed: bool) -> BlockRole {
    if compressed { compressed_role(inst) } else { full_role(inst) }
}

fn full_role_of(inst: Instruction) -> (r: BlockRole)
    ensures
        r == full_role(inst),
{
    reveal(full_role);
    match inst {
        Instruction::Add { .. }
        | Instruction::Addi { .. }
        | Instruction::Addiw { .. }
        | Instruction::Addw { .. }
        | Instruction::And { .. }
        | Instruction::Andi { .. }
        | Instruction::Auipc { .. }
        | Instruction::Div { .. }
        | Instruction::Divu { .. }
        | Instruction::Divuw { .. }
        | Instruction::Divw { .. }
        | Instruction::Lb { .. }
        | Instruction::Lbu { .. }
        | Instruction::Ld { .. }
        | Instruction::Lh { .. }
        | Instruction::Lhu { .. }
        | Instruction::Lui { .. }
        | Instruction::Lw { .. }
        | Instruction::Lwu { .. }
        | Instruction::Mul { .. }
        | Instruction::Mulh { .. }
        | Instruction::Mulhsu { .. }
        | Instruction::Mulhu { .. }
        | Instruction::Mulw { .. }
        | Instruction::Or { .. }
        | Instruction::Ori { .. }
        | Instruction::Rem { .. }
        | Instruction::Remu { .. }
        | Instruction::Remuw { .. }
        | Instruction::Remw { .. }
        | Instruction::Sb { .. }
        | Instruction::Sd { .. }
        | Instruction::Sh { .. }
        | Instruction::Sll { .. }
        | Instruction::Slli { .. }
        | Instruction::Slliw { .. }
        | Instruction::Sllw { .. }
        | Instruction::Slt { .. }
        | Instruction::Slti { .. }
        | Instruction::Sltiu { .. }
        | Instruction::Sltu { .. }
        | Instruction::Sra { .. }
        | Instruction::Srai { .. }
        | Instruction::Sraiw { .. }
        | Instruction::Sraw { .. }
        | Instruction::Srl { .. }
        | Instruction::Srli { .. }
        | Instruction::Srliw { .. }
        | Instruction::Srlw { .. }
        | Instruction::Sub { .. }
        | Instruction::Subw { .. }
        | Instruction::Sw { .. }
        | Instruction::Xor { .. }
        | Instruction::Xori { .. } => BlockRole::Inline,
        Instruction::Beq { .. }
        | Instruction::Bne { .. }
        | Instruction::Blt { .. }
        | Instruction::Bge { .. }
        | Instruction::Bltu { .. }
        | Instruction::Bgeu { .. }
        | Instruction::Jal { .. }
        | Instruction::Jalr { .. } => BlockRole::Ends,
        _ => BlockRole::Slow,
    }
}

fn compressed_role_of(inst: Instruction) -> (r: BlockRole)
    ensures
        r == compressed_role(inst),
{
    reveal(compressed_role);
    match inst {
        Instruction::Lui { rd, .. } => if rd != 0 { BlockRole::Inline } else { BlockRole::Slow },
        Instruction::Addi { .. }
        | Instruction::Addiw { .. }
        | Instruction::Ld { .. }
        | Instruction::Sd { .. }
        | Instruction::Slli { .. }
        | Instruction::Srli { .. }
        | Instruction::Srai { .. }
        | Instruction::Andi { .. }
        | Instruction::Sub { .. }
        | Instruction::Xor { .. }
        | Instruction::Or { .. }
        | Instruction::And { .. }
        | Instruction::Subw { .. }
        | Instruction::Addw { .. }
        | Instruction::Add { .. } => BlockRole::Inline,
        Instruction::Jal { .. }
        | Instruction::Beq { .. }
        | Instruction::Bne { .. }
        | Instruction::Jalr { .. } => BlockRole::Ends,
        _ => BlockRole::Slow,
    }
}

/// An instruction of a planned block: where it is and what it is.
#[derive(Debug, Clone, Copy, PartialEq, Eq, Structural)]
pub struct PlannedInst {
    pub pc: u64,
    pub inst: Instruction,
    pub compressed: bool,
}

/// How a planned block ends.
#[derive(Debug, Clone, Copy, PartialEq, Eq, Structural)]
pub enum BlockEnd {
    /// Its last instruction is a branch or jump, which leaves the block itself.
    Ends,
    /// The block returns to `exit_pc`: a fetch failed there, the word there does
    /// not decode, or the instruction there is left to the interpreter.
    Exit,
    /// MAX_BLOCK_INSTS instructions were taken; the block returns to `exit_pc`.
    Limit,
}

/// A planned block: its instructions in order, how it ends, and the pc it
/// returns to when it does not end with a branch or jump.
pub struct BlockPlan {
    pub insts: Vec<PlannedInst>,
    pub end: BlockEnd,
    pub exit_pc: u64,
}

/// An instruction fetch for the compiler: translate `pc` (current privilege),
/// then read 4 bytes through the bus; the word and the hart after it.
pub open spec fn block_fetch(h: Hart, pc: u64) -> (Option<u32>, Hart) {
    let (tr, tlb2, mem2) = translate_spec(h.tlb, h.mem, h.base, h.csr.satp, h.mode, h.csr.mstatus, pc, AccessType::Fetch);
    let h2 = Hart { tlb: tlb2, mem: mem2, ..h };
    match tr {
        Err(_) => (None, h2),
        Ok(pa) => match phys_load(h2, pa, 4) {
            (Some(v), h3) => (Some(v as u32), h3),
            (None, h3) => (None, h3),
        },
    }
}

/// The instruction that a fetched word starts with, and whether it is compressed.
#[verifier::opaque]
pub open spec fn block_decode(raw: u32) -> Option<(Instruction, bool)> {
    if raw & 3 != 3 {
        match decode_rvc_spec((raw & 0xffff) as u16) { Some(i) => Some((i, true)), None => None }
    } else {
        match decode_spec(raw) { Some(i) => Some((i, false)), None => None }
    }
}

/// The rest of a block from `pc`, `n` instructions in: the instructions, how it
/// ends, the pc it returns to, and the hart after the fetches.
pub open spec fn plan_from(h: Hart, pc: u64, n: nat) -> (Seq<PlannedInst>, BlockEnd, u64, Hart)
    decreases MAX_BLOCK_INSTS - n,
{
    if n >= MAX_BLOCK_INSTS {
        (seq![], BlockEnd::Limit, pc, h)
    } else {
        let (raw, h2) = block_fetch(h, pc);
        match raw {
            None => (seq![], BlockEnd::Exit, pc, h2),
            Some(w) => match block_decode(w) {
                None => (seq![], BlockEnd::Exit, pc, h2),
                Some((inst, c)) => {
                    let p = PlannedInst { pc, inst, compressed: c };
                    match role_of(inst, c) {
                        BlockRole::Slow => (seq![], BlockEnd::Exit, pc, h2),
                        BlockRole::Ends => (seq![p], BlockEnd::Ends, pc, h2),
                        BlockRole::Inline => {
                            let r = plan_from(h2, pc.wrapping_add(if c { 2u64 } else { 4u64 }), n + 1);
                            (seq![p] + r.0, r.1, r.2, r.3)
                        },
                    }
                },
            },
        }
    }
}

/// The block at `pc`: none when the first fetch fails; else, after that first
/// fetch, the plan from `pc`. With the hart after all the fetches.
pub open spec fn plan_block_spec(h: Hart, pc: u64) -> (Option<(Seq<PlannedInst>, BlockEnd, u64)>, Hart) {
    let (raw, h2) = block_fetch(h, pc);
    match raw {
        None => (None, h2),
        Some(_) => {
            let r = plan_from(h2, pc, 0);
            (Some((r.0, r.1, r.2)), r.3)
        },
    }
}

/// The pc after a planned instruction.
pub open spec fn after(p: PlannedInst) -> u64 {
    p.pc.wrapping_add(if p.compressed { 2u64 } else { 4u64 })
}

/// A block is a straight run of instructions: the first at its start, each
/// next one right after the one before, all but the last compiled in line,
/// the last ending the block exactly when the plan says so, at most MAX_BLOCK_INSTS in
/// all (with `n` already taken); a block that does not end with a branch or
/// jump returns to the pc right after its last instruction, and stops short
/// of MAX_BLOCK_INSTS instructions only when it exits there.
pub proof fn lemma_block_shape(h: Hart, pc: u64, n: nat)
    requires
        n <= MAX_BLOCK_INSTS,
    ensures
        ({
            let (s, e, x, _h) = plan_from(h, pc, n);
            &&& s.len() <= MAX_BLOCK_INSTS - n
            &&& forall|i: int| 0 <= i < s.len() ==> (#[trigger] s[i]).pc == (if i == 0 { pc } else { after(s[i - 1]) })
            &&& forall|i: int| 0 <= i < s.len() - 1 ==> role_of((#[trigger] s[i]).inst, s[i].compressed) == BlockRole::Inline
            &&& (e == BlockEnd::Ends) == (s.len() > 0 && role_of(s.last().inst, s.last().compressed) == BlockRole::Ends)
            &&& e != BlockEnd::Ends ==> x == (if s.len() == 0 { pc } else { after(s.last()) })
            &&& (e == BlockEnd::Limit) == (e != BlockEnd::Ends && s.len() == MAX_BLOCK_INSTS - n)
        }),
    decreases MAX_BLOCK_INSTS - n,
{
    if n < MAX_BLOCK_INSTS {
        let (raw, h2) = block_fetch(h, pc);
        if let Some(w) = raw {
            if let Some((inst, c)) = block_decode(w) {
                let p = PlannedInst { pc, inst, compressed: c };
                if role_of(inst, c) == BlockRole::Inline {
                    let np = pc.wrapping_add(if c { 2u64 } else { 4u64 });
                    lemma_block_shape(h2, np, n + 1);
                    let r = plan_from(h2, np, n + 1);
                    let s = seq![p] + r.0;
                    assert(plan_from(h, pc, n).0 == s);
                    assert forall|i: int| 0 <= i < s.len() implies (#[trigger] s[i]).pc == (if i == 0 { pc } else { after(s[i - 1]) }) by {
                        if i > 0 {
                            assert(s[i] == r.0[i - 1]);
                            if i > 1 {
                                assert(s[i - 1] == r.0[i - 2]);
                            }
                        }
                    }
                    assert forall|i: int| 0 <= i < s.len() - 1 implies role_of((#[trigger] s[i]).inst, s[i].compressed) == BlockRole::Inline by {
                        if i > 0 {
                            assert(s[i] == r.0[i - 1]);
                        }
                    }
                    if r.0.len() > 0 {
                        assert(s.last() == r.0.last());
                    }
                }
            }
        }
    }
}

fn fetch_word(cpu: &mut Cpu, pc: u64) -> (r: Option<u32>)
    ensures
        (r, final(cpu).hart()) == block_fetch(old(cpu).hart(), pc),
        final(cpu).tracer == old(cpu).tracer,
{
    let pa = match cpu.mmu.translate(&mut cpu.bus, cpu.csr.satp, cpu.mode, cpu.csr.mstatus, pc, AccessType::Fetch) {
        Ok(pa) => pa,
        Err(_) => {
            return None;
        },
    };
    match cpu.bus.load(pa, 4) {
        Ok(v) => Some(v as u32),
        Err(_) => None,
    }
}

fn decode_word(raw: u32) -> (r: Option<(Instruction, bool)>)
    ensures
        r == block_decode(raw),
{
    reveal(block_decode);
    if raw & 3 != 3 {
        match decode_rvc((raw & 0xffff) as u16) {
            Ok(i) => Some((i, true)),
            Err(_) => None,
        }
    } else {
        match decode(raw) {
            Ok(i) => Some((i, false)),
            Err(_) => None,
        }
    }
}

/// Plan the block that starts at guest `start_pc` (see `plan_block_spec`); the
/// fetches refill the TLB and set accessed bits as the interpreter's do.
pub fn plan_block(cpu: &mut Cpu, start_pc: u64) -> (r: Option<BlockPlan>)
    ensures
        (match r { Some(p) => Some((p.insts@, p.end, p.exit_pc)), None => None }, final(cpu).hart())
            == plan_block_spec(old(cpu).hart(), start_pc),
        final(cpu).tracer == old(cpu).tracer,
{
    if fetch_word(cpu, start_pc).is_none() {
        return None;
    }
    let ghost h0 = cpu.hart();
    let mut insts: Vec<PlannedInst> = Vec::new();
    let mut pc: u64 = start_pc;
    let mut n: u64 = 0;
    loop
        invariant
            n <= MAX_BLOCK_INSTS,
            insts@.len() == n,
            plan_from(h0, start_pc, 0) == ({
                let r = plan_from(cpu.hart(), pc, n as nat);
                (insts@ + r.0, r.1, r.2, r.3)
            }),
            cpu.tracer == old(cpu).tracer,
            block_fetch(old(cpu).hart(), start_pc).0 is Some,
            block_fetch(old(cpu).hart(), start_pc).1 == h0,
        decreases MAX_BLOCK_INSTS - n,
    {
        let ghost before = insts@;
        if n >= MAX_BLOCK_INSTS {
            assert(before + seq![] =~= before);
            return Some(BlockPlan { insts, end: BlockEnd::Limit, exit_pc: pc });
        }
        let raw = match fetch_word(cpu, pc) {
            Some(w) => w,
            None => {
                assert(before + seq![] =~= before);
                return Some(BlockPlan { insts, end: BlockEnd::Exit, exit_pc: pc });
            },
        };
        let (inst, compressed) = match decode_word(raw) {
            Some(d) => d,
            None => {
                assert(before + seq![] =~= before);
                return Some(BlockPlan { insts, end: BlockEnd::Exit, exit_pc: pc });
            },
        };
        let role = if compressed { compressed_role_of(inst) } else { full_role_of(inst) };
        let p = PlannedInst { pc, inst, compressed };
        assert(role == role_of(inst, compressed));
        match role {
            BlockRole::Slow => {
                assert(before + seq![] =~= before);
                return Some(BlockPlan { insts, end: BlockEnd::Exit, exit_pc: pc });
            },
            BlockRole::Ends => {
                insts.push(p);
                assert(before + seq![p] =~= insts@);
                return Some(BlockPlan { insts, end: BlockEnd::Ends, exit_pc: pc });
            },
            BlockRole::Inline => {
                insts.push(p);
                let size: u64 = if compressed { 2 } else { 4 };
                pc = pc.wrapping_add(size);
                n = n + 1;
                assert forall|t: Seq<PlannedInst>| #![auto] before + (seq![p] + t) == insts@ + t by {
                    assert(before + (seq![p] + t) =~= insts@ + t);
                }
            },
        }
    }
}

/// Compiled blocks, keyed by the guest pc at which each starts.
pub struct JitCache<B> {
    blocks: HashMap<u64, B>,
}

impl<B> View for JitCache<B> {
    type V = Map<u64, B>;

    closed spec fn view(&self) -> Map<u64, B> {
        self.blocks@
    }
}

impl<B> JitCache<B> {
    pub fn new() -> (c: Self)
        ensures
            c@ == Map::<u64, B>::empty(),
    {
        JitCache { blocks: HashMap::new() }
    }

    /// The block compiled for `pc`, if any.
    pub fn get(&self, pc: u64) -> (r: Option<&B>)
        ensures
            match r {
                Some(b) => self@.contains_key(pc) && *b == self@[pc],
                None => !self@.contains_key(pc),
            },
    {
        broadcast use vstd::std_specs::hash::group_hash_axioms;
        self.blocks.get(&pc)
    }

    /// Whether a block is compiled for `pc`.
    pub fn contains(&self, pc: u64) -> (r: bool)
        ensures
            r == self@.contains_key(pc),
    {
        broadcast use vstd::std_specs::hash::group_hash_axioms;
        self.blocks.contains_key(&pc)
    }

    /// Remember `block` as the code for `pc`, replacing any earlier one.
    pub fn insert(&mut self, pc: u64, block: B)
        ensures
            final(self)@ == old(self)@.insert(pc, block),
    {
        broadcast use vstd::std_specs::hash::group_hash_axioms;
        self.blocks.insert(pc, block);
    }

    /// Drop every compiled block (after a change of address space or code).
    pub fn invalidate(&mut self)
        ensures
            final(self)@ == Map::<u64, B>::empty(),
    {
        self.blocks.clear();
    }

    /// The number of compiled blocks.
    pub fn len(&self) -> (n: usize)
        ensures
            n == self@.len(),
    {
        broadcast use vstd::std_specs::hash::group_hash_axioms;
        self.blocks.len()
    }
}

} // verus!
