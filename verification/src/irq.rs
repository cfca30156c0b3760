use vstd::prelude::*;
use crate::clint::Clint;
use crate::cpu::csr::Csr;
use crate::plic::{Plic, PlicState, set_pending_spec, s_claimable, eligible, is_enabled, is_pending, lemma_set_pending_bits};
use crate::cpu::csr::bit;

verus! {

/// PLIC source of the UART.
pub const UART_IRQ: u32 = 10;

/// PLIC source of the virtio disk.
pub const VIRTIO_IRQ: u32 = 1;

/// `mip` with bit `b` set when `on`, else cleared.
pub open spec fn with_bit(mip: u64, b: u64, on: bool) -> u64 {
    if on { mip | (1u64 << b) } else { mip & !(1u64 << b) }
}

/// The PLIC after the device lines are sampled: the UART's level on IRQ 10, the
/// disk's on IRQ 1.
pub open spec fn sampled_plic(p: PlicState, uart_irq: bool, virtio_irq: bool) -> PlicState {
    set_pending_spec(set_pending_spec(p, UART_IRQ, uart_irq), VIRTIO_IRQ, virtio_irq)
}

/// `mip` with STIP (5) following mtime >= stimecmp once stimecmp has been
/// written (all ones means unused: STIP is then left as software set it).
pub open spec fn sstc_mip(mip: u64, mtime: u64, stimecmp: u64) -> u64 {
    if stimecmp != u64::MAX { with_bit(mip, 5, mtime >= stimecmp) } else { mip }
}

/// `mip` after the lines are sampled: MTIP (7) follows mtime >= mtimecmp, STIP
/// (5) follows stimecmp (see `sstc_mip`), SEIP (9) follows whether the PLIC's
/// S-mode context has a claimable interrupt.
pub open spec fn sampled_mip(mip: u64, clint: Clint, stimecmp: u64, p: PlicState) -> u64 {
    with_bit(sstc_mip(with_bit(mip, 7, clint.mtime >= clint.mtimecmp), clint.mtime, stimecmp), 9, s_claimable(p))
}

/// A raised UART line that the S-mode context has enabled above its threshold
/// reaches the hart as a supervisor external interrupt; a due timer sets MTIP.
pub proof fn lemma_lines_reach_hart(p: PlicState, clint: Clint, mip: u64, virtio_irq: bool)
    requires
        is_enabled(p, 1, UART_IRQ),
        p.priority[10] > p.threshold[1],
    ensures
        bit(sampled_mip(mip, clint, u64::MAX, sampled_plic(p, true, virtio_irq)), 9) == 1,
        bit(sampled_mip(mip, clint, u64::MAX, sampled_plic(p, true, virtio_irq)), 7) == (if clint.mtime >= clint.mtimecmp { 1u64 } else { 0u64 }),
{
    let p1 = set_pending_spec(p, UART_IRQ, true);
    let p2 = sampled_plic(p, true, virtio_irq);
    lemma_set_pending_bits(p, UART_IRQ, UART_IRQ);
    lemma_set_pending_bits(p1, VIRTIO_IRQ, UART_IRQ);
    assert(is_pending(p2, UART_IRQ));
    assert(eligible(p2, 1, UART_IRQ));
    assert(s_claimable(p2));
    let m = mip;
    assert(((((m | (1u64 << 7)) | (1u64 << 9)) >> 9) & 1 == 1) && ((((m & !(1u64 << 7)) | (1u64 << 9)) >> 9) & 1 == 1)
        && ((((m | (1u64 << 7)) | (1u64 << 9)) >> 7) & 1 == 1) && ((((m & !(1u64 << 7)) | (1u64 << 9)) >> 7) & 1 == 0))
        by (bit_vector);
}

/// Bring the interrupt lines up to date: the timer into mip.MTIP, the Sstc
/// compare into mip.STIP, the UART and disk levels into the PLIC, and the
/// PLIC's S-mode output into mip.SEIP.
pub fn update_irq_lines(csr: &mut Csr, clint: &Clint, plic: &mut Plic, uart_irq: bool, virtio_irq: bool)
    ensures
        final(plic)@ == sampled_plic(old(plic)@, uart_irq, virtio_irq),
        *final(csr) == (Csr { mip: sampled_mip(old(csr).mip, *clint, old(csr).stimecmp, final(plic)@), ..*old(csr) }),
{
    if clint.mtime >= clint.mtimecmp {
        csr.mip = csr.mip | (1u64 << 7);
    } else {
        csr.mip = csr.mip & !(1u64 << 7);
    }
    if csr.stimecmp != u64::MAX {
        if clint.mtime >= csr.stimecmp {
            csr.mip = csr.mip | (1u64 << 5);
        } else {
            csr.mip = csr.mip & !(1u64 << 5);
        }
    }
    plic.set_pending(UART_IRQ, uart_irq);
    plic.set_pending(VIRTIO_IRQ, virtio_irq);
    if plic.has_interrupt() {
        csr.mip = csr.mip | (1u64 << 9);
    } else {
        csr.mip = csr.mip & !(1u64 << 9);
    }
}

} // verus!
