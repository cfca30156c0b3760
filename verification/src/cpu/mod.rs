pub mod csr;
pub mod decode;
pub mod execute;
pub mod mmu;

use vstd::prelude::*;
use crate::bus::{Bus, DevState, mem_in_range, mem_read, bus_load_spec, bus_store_spec, lemma_pow256_facts, lemma_le_value_bound};
use csr::{Csr, bit};
use decode::{decode, decode_spec, lemma_decode_wf, decode_rvc, decode_rvc_spec, lemma_decode_rvc_wf, Instruction};
use execute::{execute, exec_spec, ExecError, lemma_exec_keeps_x0, is_fpu};
use mmu::{Mmu, AccessType, TlbEntry, MmuFault, translate_spec};

verus! {

/// Privilege level of the hart.
#[derive(Debug, Clone, Copy, PartialEq, Eq, Structural)]
pub enum PrivMode {
    U,
    S,
    M,
}

/// The two-bit encoding of a privilege level (as in mstatus.MPP).
pub open spec fn priv_bits(m: PrivMode) -> u64 {
    match m {
        PrivMode::U => 0,
        PrivMode::S => 1,
        PrivMode::M => 3,
    }
}

/// The privilege level that a two-bit MPP field selects (2 reads as M).
pub open spec fn mode_of_bits(b: u64) -> PrivMode {
    if b == 0 { PrivMode::U } else if b == 1 { PrivMode::S } else { PrivMode::M }
}

/// Per-instruction trace switch; the trace itself is printed outside the library.
pub struct Tracer {
    pub enabled: bool,
}

impl Tracer {
    pub fn new(enabled: bool) -> (t: Self)
        ensures
            t.enabled == enabled,
    {
        Tracer { enabled }
    }
}

/// The registers from `from` to 31 whose value differs between `before` and
/// `after`, in order, with the value before and after.
pub open spec fn changes_spec(before: Seq<u64>, after: Seq<u64>, from: int) -> Seq<(usize, u64, u64)>
    decreases 32 - from,
{
    if from >= 32 || from < 0 {
        seq![]
    } else if before[from] != after[from] {
        seq![(from as usize, before[from], after[from])] + changes_spec(before, after, from + 1)
    } else {
        changes_spec(before, after, from + 1)
    }
}

/// The registers x1..x31 that an instruction changed, for the trace.
pub fn reg_changes(before: &[u64; 32], after: &[u64; 32]) -> (r: Vec<(usize, u64, u64)>)
    ensures
        r@ == changes_spec(before@, after@, 1),
{
    let mut out: Vec<(usize, u64, u64)> = Vec::new();
    let mut i: usize = 1;
    while i < 32
        invariant
            1 <= i <= 32,
            before@.len() == 32,
            after@.len() == 32,
            changes_spec(before@, after@, 1) == out@ + changes_spec(before@, after@, i as int),
        decreases 32 - i,
    {
        let ghost prev = out@;
        if before[i] != after[i] {
            out.push((i, before[i], after[i]));
            assert(prev + changes_spec(before@, after@, i as int) =~= out@ + changes_spec(before@, after@, i + 1));
        }
        i = i + 1;
    }
    assert(out@ + changes_spec(before@, after@, 32) =~= out@);
    out
}

/// The architectural state of the hart, as the specifications see it.
pub ghost struct Hart {
    pub regs: Seq<u64>,
    pub fregs: Seq<u64>,
    pub pc: u64,
    pub mem: Seq<u8>,
    pub base: u64,
    pub dev: DevState,
    pub csr: Csr,
    pub mode: PrivMode,
    pub tlb: Seq<TlbEntry>,
    pub reservation: Option<u64>,
    pub inst_size: u64,
    pub jit_invalidate: bool,
    pub fence_i_pending: bool,
}

/// Register `n` as instructions read it: x0 is always zero.
pub open spec fn xreg(h: Hart, n: usize) -> u64 {
    if n == 0 { 0 } else { h.regs[n as int] }
}

/// The register file after writing `v` to register `n`; writes to x0 are dropped.
pub open spec fn set_xreg(regs: Seq<u64>, n: usize, v: u64) -> Seq<u64> {
    if n == 0 { regs } else { regs.update(n as int, v) }
}

/// A load of `width` bytes at physical `pa` through the bus: the raw value
/// (None when it hits neither a device nor RAM) and the hart with its devices
/// after the read.
pub open spec fn phys_load(h: Hart, pa: u64, width: usize) -> (Option<u64>, Hart) {
    let (v, d) = bus_load_spec(h.mem, h.base, h.dev, pa, width as nat);
    (v, Hart { dev: d, ..h })
}

/// The hart after a store of `width` bytes of `value` at physical `pa` through
/// the bus, or None when it hits neither a device nor RAM.
pub open spec fn phys_store(h: Hart, pa: u64, width: usize, value: u64) -> Option<Hart> {
    match bus_store_spec(h.mem, h.base, h.dev, pa, width as nat, value) {
        Some((m, d)) => Some(Hart { mem: m, dev: d, ..h }),
        None => None,
    }
}

/// The trap target: `tvec`'s base, or base + 4 * code for an interrupt in vectored mode.
pub open spec fn trap_pc(tvec: u64, cause: u64) -> u64 {
    let base = tvec & !3u64;
    if (cause >> 63) != 0 && tvec & 3 == 1 {
        base.wrapping_add((cause & !(1u64 << 63)).wrapping_mul(4))
    } else {
        base
    }
}

/// Whether a trap with `cause` taken from `h` goes to S-mode (medeleg/mideleg).
pub open spec fn trap_delegated(h: Hart, cause: u64) -> bool {
    let code = cause & !(1u64 << 63);
    let deleg = if (cause >> 63) != 0 { h.csr.mideleg } else { h.csr.medeleg };
    code < 64 && (deleg >> code) & 1 == 1 && h.mode != PrivMode::M
}

/// The hart after taking a trap with `cause` and `tval`.
pub open spec fn trap_spec(h: Hart, cause: u64, tval: u64) -> Hart {
    if trap_delegated(h, cause) {
        Hart {
            csr: Csr {
                mstatus: Csr::s_trap_entry_spec(h.csr.mstatus, h.mode == PrivMode::S),
                sepc: h.pc,
                scause: cause,
                stval: tval,
                ..h.csr
            },
            pc: trap_pc(h.csr.stvec, cause),
            mode: PrivMode::S,
            ..h
        }
    } else {
        Hart {
            csr: Csr {
                mstatus: Csr::trap_entry_spec(h.csr.mstatus, priv_bits(h.mode)),
                mepc: h.pc,
                mcause: cause,
                mtval: tval,
                ..h.csr
            },
            pc: trap_pc(h.csr.mtvec, cause),
            mode: PrivMode::M,
            ..h
        }
    }
}

/// Whether interrupt `code` is pending and enabled in mip & mie and may be taken
/// from the hart's privilege level: in M-mode only when not delegated and
/// mstatus.MIE is set; below M, a delegated one when mstatus.SIE is set and a
/// non-delegated one always.
pub open spec fn irq_can_fire(h: Hart, code: u64) -> bool {
    let delegated = bit(h.csr.mideleg, code) == 1;
    &&& bit(h.csr.mip & h.csr.mie, code) == 1
    &&& match h.mode {
        PrivMode::M => !delegated && bit(h.csr.mstatus, 3) == 1,
        _ => !delegated || bit(h.csr.mstatus, 1) == 1,
    }
}

/// The interrupt taken before the next instruction: the first that can fire in
/// the order MEI (11), MSI (3), MTI (7), SEI (9), SSI (1), STI (5).
pub open spec fn pending_irq(h: Hart) -> Option<u64> {
    if irq_can_fire(h, 11) { Some(11) }
    else if irq_can_fire(h, 3) { Some(3) }
    else if irq_can_fire(h, 7) { Some(7) }
    else if irq_can_fire(h, 9) { Some(9) }
    else if irq_can_fire(h, 1) { Some(1) }
    else if irq_can_fire(h, 5) { Some(5) }
    else { None }
}

/// The cause value of interrupt `code`.
pub open spec fn irq_cause(code: u64) -> u64 {
    (1u64 << 63) | code
}

/// One step: a pending interrupt is taken; else fetch through the MMU, decode,
/// execute, where fetch faults and illegal instructions become traps.
pub open spec fn step_spec(h: Hart) -> Hart {
    match pending_irq(h) {
        Some(code) => trap_spec(h, irq_cause(code), 0),
        None => fetch_exec_spec(h),
    }
}

/// Fetch through the MMU, decode, execute; fetch faults and illegal instructions
/// become traps. The low half-word is fetched first: when its low two bits are
/// not 0b11 it is a compressed instruction (2 bytes), else the high half-word
/// at the next physical address completes a 32-bit one.
pub open spec fn fetch_exec_spec(h: Hart) -> Hart {
    let (tr, tlb2, mem2) = translate_spec(h.tlb, h.mem, h.base, h.csr.satp, h.mode, h.csr.mstatus, h.pc, AccessType::Fetch);
    let h2 = Hart { tlb: tlb2, mem: mem2, ..h };
    match tr {
        Err(f) => trap_spec(h2, f.cause, f.tval),
        Ok(pa) => {
            if !mem_in_range(mem2, h.base, pa, 2) {
                trap_spec(h2, 1, h.pc)
            } else {
                let lo = mem_read(mem2, h.base, pa, 2) as u16;
                if lo & 3 != 3 {
                    match decode_rvc_spec(lo) {
                        None => trap_spec(h2, 2, lo as u64),
                        Some(inst) => exec_spec(Hart { inst_size: 2, ..h2 }, inst),
                    }
                } else if !mem_in_range(mem2, h.base, pa.wrapping_add(2), 2) {
                    trap_spec(h2, 1, h.pc)
                } else {
                    let raw = fetched_word(lo, mem_read(mem2, h.base, pa.wrapping_add(2), 2) as u16);
                    match decode_spec(raw) {
                        None => trap_spec(h2, 2, raw as u64),
                        Some(inst) => exec_spec(Hart { inst_size: 4, ..h2 }, inst),
                    }
                }
            }
        },
    }
}

/// The 32-bit instruction word made of its low and high half-words.
pub open spec fn fetched_word(lo: u16, hi: u16) -> u32 {
    (lo as u32) | ((hi as u32) << 16)
}

/// The instruction that a step leaves to its caller: a float instruction fetched
/// (as a 32-bit word) when no interrupt is taken.
pub open spec fn step_fpu(h: Hart) -> Option<Instruction> {
    let (tr, tlb2, mem2) = translate_spec(h.tlb, h.mem, h.base, h.csr.satp, h.mode, h.csr.mstatus, h.pc, AccessType::Fetch);
    if pending_irq(h) is Some {
        None
    } else {
        match tr {
            Err(_) => None,
            Ok(pa) => {
                if !mem_in_range(mem2, h.base, pa, 2) {
                    None
                } else {
                    let lo = mem_read(mem2, h.base, pa, 2) as u16;
                    if lo & 3 != 3 || !mem_in_range(mem2, h.base, pa.wrapping_add(2), 2) {
                        None
                    } else {
                        match decode_spec(fetched_word(lo, mem_read(mem2, h.base, pa.wrapping_add(2), 2) as u16)) {
                            Some(inst) => if is_fpu(inst) { Some(inst) } else { None },
                            None => None,
                        }
                    }
                }
            },
        }
    }
}

/// An interrupt is only taken when it is both pending (mip) and enabled (mie).
pub proof fn lemma_irq_pending_and_enabled(h: Hart)
    ensures
        pending_irq(h) matches Some(code) ==> bit(h.csr.mip, code) == 1 && bit(h.csr.mie, code) == 1,
{
    let mip = h.csr.mip;
    let mie = h.csr.mie;
    assert(forall|c: u64| c < 64 && #[trigger] ((mip & mie) >> c) & 1 == 1 ==> (mip >> c) & 1 == 1 && (mie >> c) & 1 == 1)
        by (bit_vector);
}

/// In M-mode with mstatus.MIE clear no interrupt is taken.
pub proof fn lemma_m_mode_masked(h: Hart)
    requires
        h.mode == PrivMode::M,
        bit(h.csr.mstatus, 3) == 0,
    ensures
        pending_irq(h) is None,
{
}

/// Interrupts are taken in the fixed order MEI, MSI, MTI, SEI, SSI, STI: one that
/// can fire is never passed over for one later in that order.
pub proof fn lemma_irq_priority(h: Hart, i: int, j: int)
    requires
        0 <= i < j < 6,
        irq_can_fire(h, seq![11u64, 3, 7, 9, 1, 5][i]),
    ensures
        pending_irq(h) != Some(seq![11u64, 3, 7, 9, 1, 5][j]),
        pending_irq(h) is Some,
{
}

/// A taken interrupt goes to S-mode exactly when the hart is below M-mode and
/// mideleg delegates it; the cause has the interrupt bit set and the trap records
/// the interrupted pc.
pub proof fn lemma_irq_target(h: Hart)
    requires
        pending_irq(h) is Some,
    ensures
        ({
            let code = pending_irq(h)->0;
            let h2 = trap_spec(h, irq_cause(code), 0);
            if h.mode != PrivMode::M && bit(h.csr.mideleg, code) == 1 {
                h2.mode == PrivMode::S && h2.csr.scause == irq_cause(code) && h2.csr.sepc == h.pc
                    && h2.csr.mcause == h.csr.mcause
            } else {
                h2.mode == PrivMode::M && h2.csr.mcause == irq_cause(code) && h2.csr.mepc == h.pc
            }
        }),
{
    let code = pending_irq(h)->0;
    let deleg = h.csr.mideleg;
    assert(code < 64);
    assert(forall|c: u64| c < 64 ==> #[trigger] (((1u64 << 63) | c) & !(1u64 << 63)) == c && ((1u64 << 63) | c) >> 63 != 0)
        by (bit_vector);
}

/// A step never changes the stored x0 (which every read sees as zero), nor the
/// size of the register file.
pub proof fn lemma_step_keeps_x0(h: Hart)
    requires
        h.regs.len() == 32,
    ensures
        step_spec(h).regs.len() == 32,
        step_spec(h).regs[0] == h.regs[0],
{
    let (tr, tlb2, mem2) = translate_spec(h.tlb, h.mem, h.base, h.csr.satp, h.mode, h.csr.mstatus, h.pc, AccessType::Fetch);
    let h2 = Hart { tlb: tlb2, mem: mem2, ..h };
    if let Ok(pa) = tr {
        if mem_in_range(mem2, h.base, pa, 2) {
            let lo = mem_read(mem2, h.base, pa, 2) as u16;
            if lo & 3 != 3 {
                lemma_decode_rvc_wf(lo);
                if let Some(inst) = decode_rvc_spec(lo) {
                    lemma_exec_keeps_x0(Hart { inst_size: 2, ..h2 }, inst);
                }
            } else if mem_in_range(mem2, h.base, pa.wrapping_add(2), 2) {
                let raw = fetched_word(lo, mem_read(mem2, h.base, pa.wrapping_add(2), 2) as u16);
                lemma_decode_wf(raw);
                if let Some(inst) = decode_spec(raw) {
                    lemma_exec_keeps_x0(Hart { inst_size: 4, ..h2 }, inst);
                }
            }
        }
    }
}

/// A single RV64 hart with its physical memory.
pub struct Cpu {
    pub regs: [u64; 32],
    /// The F/D registers: singles NaN-boxed in the low half.
    pub fregs: [u64; 32],
    pub pc: u64,
    pub bus: Bus,
    pub tracer: Tracer,
    pub csr: Csr,
    pub reservation: Option<u64>,
    pub mode: PrivMode,
    pub mmu: Mmu,
    /// Size of the instruction being executed (4; 2 for compressed ones).
    pub inst_size: u64,
    /// Set when satp changes, so that compiled code for the old address space is dropped.
    pub jit_invalidate: bool,
    /// Set by FENCE.I, so that compiled code can be dropped after the guest patched code.
    pub fence_i_pending: bool,
}

impl Cpu {
    pub open spec fn hart(&self) -> Hart {
        Hart {
            regs: self.regs@,
            fregs: self.fregs@,
            pc: self.pc,
            mem: self.bus@,
            base: self.bus.base(),
            dev: self.bus.devs(),
            csr: self.csr,
            mode: self.mode,
            tlb: self.mmu.tlb@,
            reservation: self.reservation,
            inst_size: self.inst_size,
            jit_invalidate: self.jit_invalidate,
            fence_i_pending: self.fence_i_pending,
        }
    }

    pub fn new(bus: Bus, entry: u64, trace: bool) -> (c: Self)
        ensures
            c.regs@ == Seq::new(32, |i: int| 0u64),
            c.fregs@ == Seq::new(32, |i: int| 0u64),
            c.pc == entry,
            c.bus@ == bus@,
            c.bus.base() == bus.base(),
            c.bus.devs() == bus.devs(),
            c.tracer.enabled == trace,
            c.csr == Csr::reset_spec(),
            c.reservation is None,
            c.mode == PrivMode::M,
            c.mmu.tlb@ == Seq::new(64, |i: int| Mmu::empty_entry()),
            c.inst_size == 4,
            !c.jit_invalidate,
            !c.fence_i_pending,
    {
        let c = Cpu {
            regs: [0u64; 32],
            fregs: [0u64; 32],
            pc: entry,
            bus,
            tracer: Tracer::new(trace),
            csr: Csr::new(),
            reservation: None,
            mode: PrivMode::M,
            mmu: Mmu::new(),
            inst_size: 4,
            jit_invalidate: false,
            fence_i_pending: false,
        };
        assert(c.regs@ =~= Seq::new(32, |i: int| 0u64));
        assert(c.fregs@ =~= Seq::new(32, |i: int| 0u64));
        c
    }

    pub fn csr_read(&self, addr: u16) -> (r: u64)
        ensures
            r == self.csr.read_spec(addr),
    {
        self.csr.read(addr)
    }

    pub fn csr_write(&mut self, addr: u16, val: u64)
        ensures
            final(self).hart() == (Hart { csr: old(self).csr.write_spec(addr, val), ..old(self).hart() }),
            final(self).tracer == old(self).tracer,
    {
        self.csr.write(addr, val);
    }

    /// Read register `n`. x0 always reads 0.
    pub fn reg(&self, n: usize) -> (r: u64)
        requires
            n < 32,
        ensures
            r == xreg(self.hart(), n),
    {
        if n == 0 { 0 } else { self.regs[n] }
    }

    /// Write register `n`. Writes to x0 are ignored.
    pub fn set_reg(&mut self, n: usize, val: u64)
        requires
            n < 32,
        ensures
            final(self).hart() == (Hart { regs: set_xreg(old(self).regs@, n, val), ..old(self).hart() }),
            final(self).tracer == old(self).tracer,
    {
        if n != 0 {
            self.regs[n] = val;
        }
    }

    /// Take a trap: to S-mode when medeleg (exceptions) or mideleg (interrupts)
    /// delegates it and the hart is below M-mode, else to M-mode.
    pub fn deliver_trap(&mut self, cause: u64, tval: u64)
        ensures
            final(self).hart() == trap_spec(old(self).hart(), cause, tval),
            final(self).tracer == old(self).tracer,
    {
        let is_interrupt = (cause >> 63) != 0;
        let code: u64 = cause & !(1u64 << 63);
        let deleg: u64 = if is_interrupt { self.csr.mideleg } else { self.csr.medeleg };
        let delegated = code < 64 && (deleg >> code) & 1 == 1 && self.mode != PrivMode::M;
        if delegated {
            self.csr.s_trap_entry(self.mode == PrivMode::S);
            self.csr.sepc = self.pc;
            self.csr.scause = cause;
            self.csr.stval = tval;
            self.pc = trap_target(self.csr.stvec, cause);
            self.mode = PrivMode::S;
        } else {
            let prev: u64 = match self.mode {
                PrivMode::U => 0,
                PrivMode::S => 1,
                PrivMode::M => 3,
            };
            self.csr.trap_entry(prev);
            self.csr.mepc = self.pc;
            self.csr.mcause = cause;
            self.csr.mtval = tval;
            self.pc = trap_target(self.csr.mtvec, cause);
            self.mode = PrivMode::M;
        }
    }

    /// Whether interrupt `code` can be taken now (see `irq_can_fire`).
    fn irq_fires(&self, code: u64) -> (r: bool)
        requires
            code < 64,
        ensures
            r == irq_can_fire(self.hart(), code),
    {
        let pending: u64 = self.csr.mip & self.csr.mie;
        let deleg: u64 = self.csr.mideleg;
        let delegated = (deleg >> code) & 1 == 1;
        proof {
            let ms = self.csr.mstatus;
            assert(((pending >> code) & 1 == 0 || (pending >> code) & 1 == 1)
                && ((ms >> 3) & 1 == 0 || (ms >> 3) & 1 == 1)) by (bit_vector);
        }
        if (pending >> code) & 1 == 0 {
            return false;
        }
        match self.mode {
            PrivMode::M => !delegated && self.csr.mie_bit() == 1,
            _ => !delegated || (self.csr.mstatus >> 1) & 1 == 1,
        }
    }

    /// Take the highest-priority interrupt that can fire (see `pending_irq`), if
    /// any; report whether one was taken.
    pub fn check_interrupts(&mut self) -> (taken: bool)
        ensures
            taken == pending_irq(old(self).hart()) is Some,
            final(self).hart() == match pending_irq(old(self).hart()) {
                Some(code) => trap_spec(old(self).hart(), irq_cause(code), 0),
                None => old(self).hart(),
            },
            final(self).tracer == old(self).tracer,
    {
        let code: u64 = if self.irq_fires(11) { 11 }
            else if self.irq_fires(3) { 3 }
            else if self.irq_fires(7) { 7 }
            else if self.irq_fires(9) { 9 }
            else if self.irq_fires(1) { 1 }
            else if self.irq_fires(5) { 5 }
            else { return false; };
        self.deliver_trap((1u64 << 63) | code, 0);
        true
    }

    /// Take a pending interrupt, or else fetch, decode, execute one instruction
    /// (compressed or 32-bit, see `fetch_exec_spec`). Fetch faults trap with the
    /// MMU's cause (or cause 1 when the physical fetch misses RAM); words that do
    /// not decode trap as illegal instructions (cause 2, tval = the raw bits).
    pub fn step(&mut self) -> (r: Result<(), ExecError>)
        ensures
            match step_fpu(old(self).hart()) {
                Some(inst) => r == Err::<(), ExecError>(ExecError { pc: old(self).pc, inst }),
                None => r is Ok,
            },
            final(self).hart() == step_spec(old(self).hart()),
            final(self).tracer == old(self).tracer,
    {
        if self.check_interrupts() {
            return Ok(());
        }
        let pc: u64 = self.pc;
        let pa: u64 = match self.mmu.translate(&mut self.bus, self.csr.satp, self.mode, self.csr.mstatus, pc, AccessType::Fetch) {
            Ok(pa) => pa,
            Err(f) => {
                self.deliver_trap(f.cause, f.tval);
                return Ok(());
            },
        };
        let lo: u16 = match self.bus.load_ram(pa, 2) {
            Ok(v) => {
                proof {
                    lemma_pow256_facts();
                    lemma_le_value_bound(self.bus@, pa - self.bus.base(), 2);
                }
                v as u16
            },
            Err(_) => {
                self.deliver_trap(1, pc);
                return Ok(());
            },
        };
        if lo & 3 != 3 {
            let inst = match decode_rvc(lo) {
                Ok(i) => i,
                Err(_) => {
                    self.deliver_trap(2, lo as u64);
                    return Ok(());
                },
            };
            self.inst_size = 2;
            return execute(self, inst);
        }
        let hi: u16 = match self.bus.load_ram(pa.wrapping_add(2), 2) {
            Ok(v) => {
                proof {
                    lemma_pow256_facts();
                    lemma_le_value_bound(self.bus@, pa.wrapping_add(2) - self.bus.base(), 2);
                }
                v as u16
            },
            Err(_) => {
                self.deliver_trap(1, pc);
                return Ok(());
            },
        };
        let raw: u32 = (lo as u32) | ((hi as u32) << 16);
        let inst = match decode(raw) {
            Ok(i) => i,
            Err(_) => {
                self.deliver_trap(2, raw as u64);
                return Ok(());
            },
        };
        self.inst_size = 4;
        execute(self, inst)
    }
}

/// The trap target of a trap vector for `cause`.
fn trap_target(tvec: u64, cause: u64) -> (r: u64)
    ensures
        r == trap_pc(tvec, cause),
{
    let base: u64 = tvec & !3u64;
    if (cause >> 63) != 0 && tvec & 3 == 1 {
        base.wrapping_add((cause & !(1u64 << 63)).wrapping_mul(4))
    } else {
        base
    }
}

} // verus!
