use vstd::prelude::*;

verus! {

// Memory map (offsets from BASE):
//   0x000000 + irq*4       : IRQ priority (irq 0..127)
//   0x001000               : pending bits [31:0] (read-only)
//   0x001004               : pending bits [63:32] (read-only)
//   0x002000 + ctx*0x80    : enable word w (IRQs 32w..32w+31) at + w*4
//   0x200000 + ctx*0x1000  : priority threshold for context ctx
//   0x200004 + ctx*0x1000  : claim (read) / complete (write) for context ctx
//
// Contexts: 0 = M-mode hart 0, 1 = S-mode hart 0

pub const BASE: u64 = 0x0C00_0000;

/// The PLIC registers as the specifications see them.
pub ghost struct PlicState {
    pub priority: Seq<u32>,
    pub enable: Seq<Seq<u32>>,
    pub threshold: Seq<u32>,
    pub pending: u64,
}

/// Platform-level interrupt controller (SiFive layout, IRQs 1..63, two contexts).
pub struct Plic {
    priority: [u32; 128],
    enable: [[u32; 4]; 2],
    threshold: [u32; 2],
    pending: u64,
}

impl View for Plic {
    type V = PlicState;

    closed spec fn view(&self) -> PlicState {
        PlicState {
            priority: self.priority@,
            enable: Seq::new(2, |c: int| self.enable@[c]@),
            threshold: self.threshold@,
            pending: self.pending,
        }
    }
}

/// The register shapes: 128 priorities, 2 contexts of 4 enable words, 2 thresholds.
pub open spec fn plic_wf(s: PlicState) -> bool {
    &&& s.priority.len() == 128
    &&& s.enable.len() == 2
    &&& forall|c: int| 0 <= c < 2 ==> (#[trigger] s.enable[c]).len() == 4
    &&& s.threshold.len() == 2
}

/// Whether `irq` is pending.
pub open spec fn is_pending(s: PlicState, irq: u32) -> bool {
    (s.pending >> irq) & 1 == 1
}

/// Whether `irq` is enabled for context `ctx`.
pub open spec fn is_enabled(s: PlicState, ctx: int, irq: u32) -> bool {
    (s.enable[ctx][(irq / 32) as int] >> (irq % 32)) & 1 == 1
}

/// Whether context `ctx` could claim `irq`: pending, enabled, and above the threshold.
pub open spec fn eligible(s: PlicState, ctx: int, irq: u32) -> bool {
    1 <= irq < 64 && is_pending(s, irq) && is_enabled(s, ctx, irq) && s.priority[irq as int] > s.threshold[ctx]
}

/// `irq` is the IRQ that context `ctx` claims: 0 when none is eligible, else an
/// eligible IRQ of the highest priority, the lowest-numbered among equals.
pub open spec fn is_best_irq(s: PlicState, ctx: int, irq: u32) -> bool {
    if irq == 0 {
        forall|j: u32| !#[trigger] eligible(s, ctx, j)
    } else {
        &&& eligible(s, ctx, irq)
        &&& forall|j: u32| #[trigger] eligible(s, ctx, j) ==> s.priority[j as int] < s.priority[irq as int]
            || (s.priority[j as int] == s.priority[irq as int] && irq <= j)
    }
}

/// The PLIC with the pending bit of `irq` cleared.
pub open spec fn clear_pending(s: PlicState, irq: u32) -> PlicState {
    PlicState { pending: s.pending & !(1u64 << irq), ..s }
}

/// The PLIC with the pending bit of `irq` raised (active) or lowered; IRQs from 64 up are ignored.
pub open spec fn set_pending_spec(s: PlicState, irq: u32, active: bool) -> PlicState {
    if irq >= 64 { s } else if active { PlicState { pending: s.pending | (1u64 << irq), ..s } } else { clear_pending(s, irq) }
}

/// Whether the S-mode context has a claimable interrupt.
pub open spec fn s_claimable(s: PlicState) -> bool {
    exists|j: u32| eligible(s, 1, j)
}

/// What a load at `addr` (>= BASE) returns, given the IRQ `claimed` by a claim read.
pub open spec fn load_value(s: PlicState, addr: u64, claimed: u32) -> u64 {
    let off = addr - BASE;
    if off <= 0x1FF {
        s.priority[off / 4] as u64
    } else if 0x1000 <= off <= 0x107F {
        let w = (off - 0x1000) / 4;
        if w == 0 { (s.pending as u32) as u64 } else if w == 1 { s.pending >> 32 } else { 0 }
    } else if 0x2000 <= off <= 0x3FFF {
        let ctx = (off - 0x2000) / 0x80;
        let word = ((off - 0x2000) % 0x80) / 4;
        if ctx < 2 && word < 4 { s.enable[ctx][word] as u64 } else { 0 }
    } else if 0x20_0000 <= off <= 0x20_FFFF {
        let ctx = (off - 0x20_0000) / 0x1000;
        let local = (off - 0x20_0000) % 0x1000;
        if ctx >= 2 { 0 } else if local == 0 { s.threshold[ctx] as u64 } else if local == 4 { claimed as u64 } else { 0 }
    } else {
        0
    }
}

/// The claim context that a load at `addr` reads, if it is a claim read.
pub open spec fn claim_ctx(addr: u64) -> Option<int> {
    let off = addr - BASE;
    if 0x20_0000 <= off <= 0x20_FFFF && (off - 0x20_0000) / 0x1000 < 2 && (off - 0x20_0000) % 0x1000 == 4 {
        Some((off - 0x20_0000) / 0x1000)
    } else {
        None
    }
}

/// The IRQ that a claim read of context `ctx` returns (see `is_best_irq`).
pub open spec fn claim_irq(s: PlicState, ctx: int) -> u32 {
    choose|i: u32| is_best_irq(s, ctx, i)
}

/// What a load at `addr` (>= BASE) returns, and the PLIC after it: a claim read
/// returns the best claimable IRQ and clears its pending bit.
pub open spec fn plic_load_spec(s: PlicState, addr: u64) -> (u64, PlicState) {
    match claim_ctx(addr) {
        Some(ctx) => {
            let irq = claim_irq(s, ctx);
            (irq as u64, if irq > 0 { clear_pending(s, irq) } else { s })
        },
        None => (load_value(s, addr, 0), s),
    }
}

/// The registers after a store of `val` at `addr` (>= BASE).
pub open spec fn store_spec(s: PlicState, addr: u64, val: u64) -> PlicState {
    let off = addr - BASE;
    if off <= 0x1FF {
        PlicState { priority: s.priority.update(off / 4, val as u32), ..s }
    } else if 0x2000 <= off <= 0x3FFF {
        let ctx = (off - 0x2000) / 0x80;
        let word = ((off - 0x2000) % 0x80) / 4;
        if ctx < 2 && word < 4 {
            PlicState { enable: s.enable.update(ctx, s.enable[ctx].update(word, val as u32)), ..s }
        } else {
            s
        }
    } else if 0x20_0000 <= off <= 0x20_FFFF {
        let ctx = (off - 0x20_0000) / 0x1000;
        let local = (off - 0x20_0000) % 0x1000;
        if ctx >= 2 {
            s
        } else if local == 0 {
            PlicState { threshold: s.threshold.update(ctx, val as u32), ..s }
        } else if local == 4 && 0 < (val as u32) < 64 {
            clear_pending(s, val as u32)
        } else {
            s
        }
    } else {
        s
    }
}

/// The IRQ that a claim returns is determined: at most one value is the best.
pub proof fn lemma_best_irq_unique(s: PlicState, ctx: int, a: u32, b: u32)
    requires
        is_best_irq(s, ctx, a),
        is_best_irq(s, ctx, b),
    ensures
        a == b,
{
    if a != 0 {
        assert(eligible(s, ctx, a));
    }
    if b != 0 {
        assert(eligible(s, ctx, b));
    }
}

/// Raising IRQ `irq` (1..63) makes it pending and leaves the other pending bits alone;
/// lowering it clears it and leaves the others alone.
pub proof fn lemma_set_pending_bits(s: PlicState, irq: u32, j: u32)
    requires
        irq < 64,
        j < 64,
    ensures
        is_pending(PlicState { pending: s.pending | (1u64 << irq), ..s }, irq),
        !is_pending(clear_pending(s, irq), irq),
        j != irq ==> is_pending(PlicState { pending: s.pending | (1u64 << irq), ..s }, j) == is_pending(s, j),
        j != irq ==> is_pending(clear_pending(s, irq), j) == is_pending(s, j),
{
    let p = s.pending;
    assert(((p | (1u64 << irq)) >> irq) & 1 == 1) by (bit_vector)
        requires irq < 64;
    assert(((p & !(1u64 << irq)) >> irq) & 1 == 0) by (bit_vector)
        requires irq < 64;
    assert(j != irq ==> ((p | (1u64 << irq)) >> j) & 1 == (p >> j) & 1) by (bit_vector)
        requires irq < 64, j < 64;
    assert(j != irq ==> ((p & !(1u64 << irq)) >> j) & 1 == (p >> j) & 1) by (bit_vector)
        requires irq < 64, j < 64;
}

/// A claimed IRQ is no longer claimable by any context until it is raised again.
pub proof fn lemma_claimed_not_eligible(s: PlicState, ctx: int, irq: u32, c: int)
    requires
        is_best_irq(s, ctx, irq),
        irq != 0,
    ensures
        !eligible(clear_pending(s, irq), c, irq),
{
    assert(eligible(s, ctx, irq));
    lemma_set_pending_bits(s, irq, irq);
}

/// A completion write of IRQ `irq` (1..63) to a context's claim register clears its pending bit.
pub proof fn lemma_complete_clears_pending(s: PlicState, ctx: u64, irq: u32)
    requires
        ctx < 2,
        1 <= irq < 64,
    ensures
        !is_pending(store_spec(s, (BASE + 0x20_0004 + ctx * 0x1000) as u64, irq as u64), irq),
{
    let addr = (BASE + 0x20_0004 + ctx * 0x1000) as u64;
    assert(addr - BASE == 0x20_0004 + ctx * 0x1000);
    assert((0x20_0004 + ctx * 0x1000 - 0x20_0000) / 0x1000 == ctx);
    assert((0x20_0004 + ctx * 0x1000 - 0x20_0000) % 0x1000 == 4);
    assert((irq as u64) as u32 == irq);
    lemma_set_pending_bits(s, irq, irq);
}

impl Plic {
    /// The reset state: all registers zero.
    pub open spec fn new_spec() -> PlicState {
        PlicState {
            priority: Seq::new(128, |i: int| 0u32),
            enable: Seq::new(2, |c: int| Seq::new(4, |w: int| 0u32)),
            threshold: Seq::new(2, |c: int| 0u32),
            pending: 0,
        }
    }

    pub fn new() -> (p: Self)
        ensures
            p@ == Plic::new_spec(),
            plic_wf(p@),
    {
        let p = Plic { priority: [0u32; 128], enable: [[0u32; 4]; 2], threshold: [0u32; 2], pending: 0 };
        assert(p@.priority =~= Seq::new(128, |i: int| 0u32));
        assert forall|c: int| 0 <= c < 2 implies p@.enable[c] =~= Seq::new(4, |w: int| 0u32) by {}
        assert(p@.enable =~= Seq::new(2, |c: int| Seq::new(4, |w: int| 0u32)));
        assert(p@.threshold =~= Seq::new(2, |c: int| 0u32));
        p
    }

    proof fn lemma_wf(&self)
        ensures
            plic_wf(self@),
    {
    }

    /// Raise (active) or lower the pending bit of `irq`; IRQs from 64 up are ignored.
    pub fn set_pending(&mut self, irq: u32, active: bool)
        ensures
            final(self)@ == set_pending_spec(old(self)@, irq, active),
    {
        if irq < 64 {
            if active {
                self.pending = self.pending | (1u64 << irq);
            } else {
                self.pending = self.pending & !(1u64 << irq);
            }
        }
    }

    /// Whether the S-mode context (1) has a claimable interrupt.
    pub fn has_interrupt(&self) -> (r: bool)
        ensures
            r == s_claimable(self@),
    {
        let irq = self.best_irq(1);
        proof {
            if irq != 0 {
                assert(eligible(self@, 1, irq));
            }
        }
        irq != 0
    }


    /// Read a register. A claim read (threshold + 4) returns the best claimable
    /// IRQ of its context and clears that IRQ's pending bit.
    pub fn load(&mut self, addr: u64, _width: usize) -> (r: u64)
        requires
            addr >= BASE,
        ensures
            match claim_ctx(addr) {
                Some(ctx) => {
                    &&& is_best_irq(old(self)@, ctx, r as u32)
                    &&& r < 64
                    &&& final(self)@ == (if r > 0 { clear_pending(old(self)@, r as u32) } else { old(self)@ })
                },
                None => final(self)@ == old(self)@ && r == load_value(old(self)@, addr, 0),
            },
            (r, final(self)@) == plic_load_spec(old(self)@, addr),
    {
        proof {
            self.lemma_wf();
        }
        let ghost s0 = self@;
        let r = self.load_inner(addr);
        proof {
            if let Some(ctx) = claim_ctx(addr) {
                let c = claim_irq(s0, ctx);
                assert(is_best_irq(s0, ctx, r as u32));
                assert(is_best_irq(s0, ctx, c));
                lemma_best_irq_unique(s0, ctx, r as u32, c);
            }
        }
        r
    }

    fn load_inner(&mut self, addr: u64) -> (r: u64)
        requires
            addr >= BASE,
        ensures
            match claim_ctx(addr) {
                Some(ctx) => {
                    &&& is_best_irq(old(self)@, ctx, r as u32)
                    &&& r < 64
                    &&& final(self)@ == (if r > 0 { clear_pending(old(self)@, r as u32) } else { old(self)@ })
                },
                None => final(self)@ == old(self)@ && r == load_value(old(self)@, addr, 0),
            },
    {
        proof {
            self.lemma_wf();
        }
        let off: u64 = addr - BASE;
        if off <= 0x1FF {
            let irq: usize = (off / 4) as usize;
            self.priority[irq] as u64
        } else if 0x1000 <= off && off <= 0x107F {
            let w: u64 = (off - 0x1000) / 4;
            if w == 0 { (self.pending as u32) as u64 } else if w == 1 { self.pending >> 32 } else { 0 }
        } else if 0x2000 <= off && off <= 0x3FFF {
            let ctx: u64 = (off - 0x2000) / 0x80;
            let word: u64 = ((off - 0x2000) % 0x80) / 4;
            if ctx < 2 && word < 4 {
                let row = self.enable[ctx as usize];
                assert(self@.enable[ctx as int] == row@);
                row[word as usize] as u64
            } else {
                0
            }
        } else if 0x20_0000 <= off && off <= 0x20_FFFF {
            let ctx: u64 = (off - 0x20_0000) / 0x1000;
            let local: u64 = (off - 0x20_0000) % 0x1000;
            if ctx >= 2 {
                0
            } else if local == 0 {
                self.threshold[ctx as usize] as u64
            } else if local == 4 {
                // Claim: return the best IRQ and clear its pending bit
                let irq: u32 = self.best_irq(ctx as usize);
                if irq > 0 {
                    self.pending = self.pending & !(1u64 << irq);
                }
                irq as u64
            } else {
                0
            }
        } else {
            0
        }
    }

    /// Write a register. A complete write (threshold + 4) clears the pending bit
    /// of the IRQ written.
    pub fn store(&mut self, addr: u64, _width: usize, val: u64)
        requires
            addr >= BASE,
        ensures
            final(self)@ == store_spec(old(self)@, addr, val),
    {
        proof {
            self.lemma_wf();
        }
        let off: u64 = addr - BASE;
        if off <= 0x1FF {
            let irq: usize = (off / 4) as usize;
            self.priority[irq] = val as u32;
            assert(self@.enable =~= old(self)@.enable);
        } else if 0x2000 <= off && off <= 0x3FFF {
            let ctx: u64 = (off - 0x2000) / 0x80;
            let word: u64 = ((off - 0x2000) % 0x80) / 4;
            if ctx < 2 && word < 4 {
                let mut row = self.enable[ctx as usize];
                assert(old(self)@.enable[ctx as int] == row@);
                row[word as usize] = val as u32;
                self.enable[ctx as usize] = row;
                assert(self@.enable =~= old(self)@.enable.update(ctx as int, old(self)@.enable[ctx as int].update(word as int, val as u32)));
            }
        } else if 0x20_0000 <= off && off <= 0x20_FFFF {
            let ctx: u64 = (off - 0x20_0000) / 0x1000;
            let local: u64 = (off - 0x20_0000) % 0x1000;
            if ctx >= 2 {
                return;
            }
            if local == 0 {
                self.threshold[ctx as usize] = val as u32;
                assert(self@.enable =~= old(self)@.enable);
            } else if local == 4 {
                // Complete: clear pending for the acknowledged IRQ
                let irq: u32 = val as u32;
                if irq > 0 && irq < 64 {
                    self.pending = self.pending & !(1u64 << irq);
                }
            }
        }
    }

    fn best_irq(&self, ctx: usize) -> (r: u32)
        requires
            ctx < 2,
        ensures
            is_best_irq(self@, ctx as int, r),
            r < 64,
    {
        proof {
            self.lemma_wf();
        }
        let mut best_irq: u32 = 0;
        let mut best_pri: u32 = self.threshold[ctx];
        let mut irq: u32 = 1;
        while irq < 64
            invariant
                1 <= irq <= 64,
                ctx < 2,
                plic_wf(self@),
                best_irq < irq,
                best_irq == 0 ==> best_pri == self@.threshold[ctx as int],
                best_irq != 0 ==> eligible(self@, ctx as int, best_irq) && best_pri == self@.priority[best_irq as int],
                forall|j: u32| 1 <= j < irq && #[trigger] eligible(self@, ctx as int, j) ==>
                    best_irq != 0 && (self@.priority[j as int] < best_pri
                        || (self@.priority[j as int] == best_pri && best_irq <= j)),
            decreases 64 - irq,
        {
            let pbits: u64 = self.pending;
            let pend = (pbits >> irq) & 1 != 0;
            if pend {
                let word: usize = (irq / 32) as usize;
                let bit: u32 = irq % 32;
                let row = self.enable[ctx];
                assert(self@.enable[ctx as int] == row@);
                let wv: u32 = row[word];
                let en = (wv >> bit) & 1 != 0;
                if en {
                    let pri = self.priority[irq as usize];
                    if pri > best_pri {
                        best_pri = pri;
                        best_irq = irq;
                    }
                }
                proof {
                    let w: u64 = (pbits >> irq) & 1;
                    assert(w == 1) by (bit_vector)
                        requires w == (pbits >> irq) & 1, w != 0;
                    let e: u32 = (wv >> bit) & 1;
                    assert(en ==> e == 1) by (bit_vector)
                        requires e == (wv >> bit) & 1, en == (e != 0);
                    assert(!en ==> e == 0) by (bit_vector)
                        requires e == (wv >> bit) & 1, en == (e != 0);
                }
            } else {
                proof {
                    let w: u64 = (pbits >> irq) & 1;
                    assert(w == 0);
                }
            }
            irq = irq + 1;
        }
        proof {
            assert forall|j: u32| #[trigger] eligible(self@, ctx as int, j) implies (best_irq != 0 && (self@.priority[j as int] < best_pri
                || (self@.priority[j as int] == best_pri && best_irq <= j))) by {}
        }
        best_irq
    }
}

} // verus!
