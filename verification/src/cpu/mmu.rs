use vstd::prelude::*;
use crate::bus::{Bus, mem_in_range, mem_read, mem_write, lemma_pow256_facts, lemma_le_value_bound, lemma_load_after_store};
use crate::cpu::PrivMode;

verus! {

pub const TLB_SIZE: usize = 64;

pub const PTE_V: u64 = 1;
pub const PTE_R: u64 = 2;
pub const PTE_W: u64 = 4;
pub const PTE_X: u64 = 8;
pub const PTE_U: u64 = 16;
pub const PTE_G: u64 = 32;
pub const PTE_A: u64 = 64;
pub const PTE_D: u64 = 128;

/// A 44-bit physical page number.
pub const PPN_MASK: u64 = 0x0FFF_FFFF_FFFF;

#[derive(Debug, Clone, Copy, PartialEq, Eq, Structural)]
pub enum AccessType {
    Fetch,
    Load,
    Store,
}

/// A failed translation: the trap cause and the faulting virtual address.
#[derive(Debug, Clone, Copy, PartialEq, Eq, Structural)]
pub struct MmuFault {
    pub cause: u64,
    pub tval: u64,
}

/// A cached 4 KiB translation.
#[derive(Debug, Clone, Copy, PartialEq, Eq, Structural)]
pub struct TlbEntry {
    pub valid: bool,
    pub vpn: u64,
    pub ppn: u64,
    pub perm: u64,
    pub asid: u16,
    pub pte_addr: u64,
}

/// Sv39 translation with a direct-mapped TLB.
pub struct Mmu {
    pub tlb: [TlbEntry; 64],
}

/// The page-fault cause of an access.
pub open spec fn pf_cause_spec(access: AccessType) -> u64 {
    match access {
        AccessType::Fetch => 12,
        AccessType::Load => 13,
        AccessType::Store => 15,
    }
}

/// The access-fault cause of an access.
pub open spec fn af_cause_spec(access: AccessType) -> u64 {
    match access {
        AccessType::Fetch => 1,
        AccessType::Load => 5,
        AccessType::Store => 7,
    }
}

/// Whether a leaf with permission bits `perm` allows `access` from `mode`
/// (U-bit rule: S-mode reaches U pages only for loads and stores with
/// mstatus.SUM, never for fetches; R/W/X rule with mstatus.MXR).
pub open spec fn perm_ok(perm: u64, mstatus: u64, mode: PrivMode, access: AccessType) -> bool {
    let u_bit = perm & PTE_U != 0;
    let mode_ok = match mode {
        PrivMode::U => u_bit,
        PrivMode::S => !u_bit || (access != AccessType::Fetch && (mstatus >> 18) & 1 == 1),
        PrivMode::M => true,
    };
    let access_ok = match access {
        AccessType::Fetch => perm & PTE_X != 0,
        AccessType::Load => perm & PTE_R != 0 || ((mstatus >> 19) & 1 != 0 && perm & PTE_X != 0),
        AccessType::Store => perm & PTE_W != 0,
    };
    mode_ok && access_ok
}

/// Whether translation applies: Sv39 in satp and not M-mode.
pub open spec fn translation_on(satp: u64, mode: PrivMode) -> bool {
    (satp >> 60) == 8 && mode != PrivMode::M
}

/// Bits 63..39 of a canonical Sv39 address copy bit 38.
pub open spec fn canonical(addr: u64) -> bool {
    (addr >> 38) == 0 || (addr >> 38) == 0x3FF_FFFF
}

/// VPN[2], VPN[1], VPN[0] of `addr`, for walk levels 0, 1, 2.
pub open spec fn vpn_part(addr: u64, level: nat) -> u64 {
    if level == 0 { (addr >> 30) & 0x1FF } else if level == 1 { (addr >> 21) & 0x1FF } else { (addr >> 12) & 0x1FF }
}

/// The physical address of the table that a PTE or satp points to.
pub open spec fn table_of(ppn_field: u64) -> u64 {
    (ppn_field & PPN_MASK) << 12
}

/// What a page-table walk finds.
pub enum Walk {
    Leaf { level: nat, pte: u64, pte_addr: u64 },
    PageFault,
    AccessFault,
}

/// Sv39 walk from `table` at `level` (0 = root) over RAM `mem` at `base`.
pub open spec fn walk(mem: Seq<u8>, base: u64, table: u64, addr: u64, level: nat) -> Walk
    decreases 3 - level,
{
    if level >= 3 {
        Walk::PageFault
    } else {
        let pte_addr = (table + vpn_part(addr, level) * 8) as u64;
        if !mem_in_range(mem, base, pte_addr, 8) {
            Walk::AccessFault
        } else {
            let pte = mem_read(mem, base, pte_addr, 8) as u64;
            if pte & PTE_V == 0 || (pte & PTE_W != 0 && pte & PTE_R == 0) {
                Walk::PageFault
            } else if pte & (PTE_R | PTE_X) != 0 {
                Walk::Leaf { level, pte, pte_addr }
            } else {
                walk(mem, base, table_of(pte >> 10), addr, level + 1)
            }
        }
    }
}

/// The low PPN bits that must be zero in a leaf found `rem` levels above the bottom.
pub open spec fn superpage_misaligned(ppn: u64, rem: nat) -> bool {
    if rem == 0 { false } else if rem == 1 { ppn & 0x1FF != 0 } else { ppn & 0x3FFFF != 0 }
}

/// The physical address of `addr` in the page of a leaf with `ppn`, `rem` levels above the bottom.
pub open spec fn leaf_pa(ppn: u64, rem: nat, addr: u64) -> u64 {
    if rem == 0 {
        (ppn << 12) | (addr & 0xFFF)
    } else if rem == 1 {
        ((ppn >> 9) << 21) | (addr & 0x1F_FFFF)
    } else {
        ((ppn >> 18) << 30) | (addr & 0x3FFF_FFFF)
    }
}

/// The PTE after the hardware A/D update of an access.
pub open spec fn ad_update(pte: u64, access: AccessType) -> u64 {
    if access == AccessType::Store { pte | PTE_A | PTE_D } else { pte | PTE_A }
}

/// RAM after the A/D update of a TLB hit: the PTE at `pte_addr` is read again
/// and written back with A (and D for a store) set, every other bit kept; a
/// PTE outside RAM is left alone.
pub open spec fn hit_ad_write(mem: Seq<u8>, base: u64, pte_addr: u64, access: AccessType) -> Seq<u8> {
    if mem_in_range(mem, base, pte_addr, 8) {
        mem_write(mem, base, pte_addr, 8, ad_update(mem_read(mem, base, pte_addr, 8) as u64, access) as nat)
    } else {
        mem
    }
}

/// The TLB slot of a virtual page.
pub open spec fn tlb_index(vpn: u64) -> int {
    (vpn & 63) as int
}

pub open spec fn asid_of(satp: u64) -> u16 {
    ((satp >> 44) & 0xFFFF) as u16
}

/// Whether a TLB entry holds the translation of `vpn` for `asid`.
pub open spec fn tlb_hit(e: TlbEntry, vpn: u64, asid: u16) -> bool {
    e.valid && e.vpn == vpn && (e.asid == asid || e.perm & PTE_G != 0)
}

/// The outcome of a translation: result, TLB after, RAM after.
pub type Translation = (Result<u64, MmuFault>, Seq<TlbEntry>, Seq<u8>);

/// Translation when the TLB misses: the outcome of the walk.
pub open spec fn translate_miss(
    tlb: Seq<TlbEntry>, mem: Seq<u8>, base: u64, satp: u64, mode: PrivMode, mstatus: u64,
    addr: u64, access: AccessType,
) -> Translation {
    let pf = MmuFault { cause: pf_cause_spec(access), tval: addr };
    let af = MmuFault { cause: af_cause_spec(access), tval: addr };
    let vpn = addr >> 12;
    match walk(mem, base, table_of(satp), addr, 0) {
        Walk::AccessFault => (Err(af), tlb, mem),
        Walk::PageFault => (Err(pf), tlb, mem),
        Walk::Leaf { level, pte, pte_addr } => {
            let ppn = (pte >> 10) & PPN_MASK;
            let rem = (2 - level) as nat;
            if superpage_misaligned(ppn, rem) || !perm_ok(pte & 0xFF, mstatus, mode, access) {
                (Err(pf), tlb, mem)
            } else {
                let new_pte = ad_update(pte, access);
                let mem2 = if new_pte != pte { mem_write(mem, base, pte_addr, 8, new_pte as nat) } else { mem };
                let tlb2 = if rem == 0 {
                    tlb.update(
                        tlb_index(vpn),
                        TlbEntry { valid: true, vpn, ppn, perm: new_pte & 0xFF, asid: asid_of(satp), pte_addr },
                    )
                } else {
                    tlb
                };
                (Ok(leaf_pa(ppn, rem, addr)), tlb2, mem2)
            }
        },
    }
}

/// The outcome of translating `addr` for `access`, given the TLB and RAM before it.
pub open spec fn translate_spec(
    tlb: Seq<TlbEntry>, mem: Seq<u8>, base: u64, satp: u64, mode: PrivMode, mstatus: u64,
    addr: u64, access: AccessType,
) -> Translation {
    let pf = MmuFault { cause: pf_cause_spec(access), tval: addr };
    let vpn = addr >> 12;
    let e = tlb[tlb_index(vpn)];
    if !translation_on(satp, mode) {
        (Ok(addr), tlb, mem)
    } else if !canonical(addr) {
        (Err(pf), tlb, mem)
    } else if tlb_hit(e, vpn, asid_of(satp)) {
        if !perm_ok(e.perm, mstatus, mode, access) {
            (Err(pf), tlb, mem)
        } else {
            let new_perm = ad_update(e.perm, access);
            if new_perm != e.perm {
                (
                    Ok((e.ppn << 12) | (addr & 0xFFF)),
                    tlb.update(tlb_index(vpn), TlbEntry { perm: new_perm, ..e }),
                    hit_ad_write(mem, base, e.pte_addr, access),
                )
            } else {
                (Ok((e.ppn << 12) | (addr & 0xFFF)), tlb, mem)
            }
        }
    } else {
        translate_miss(tlb, mem, base, satp, mode, mstatus, addr, access)
    }
}

fn pf_cause(access: AccessType) -> (r: u64)
    ensures
        r == pf_cause_spec(access),
{
    match access {
        AccessType::Fetch => 12,
        AccessType::Load => 13,
        AccessType::Store => 15,
    }
}

fn af_cause(access: AccessType) -> (r: u64)
    ensures
        r == af_cause_spec(access),
{
    match access {
        AccessType::Fetch => 1,
        AccessType::Load => 5,
        AccessType::Store => 7,
    }
}

fn check_perms(perm: u64, mstatus: u64, mode: PrivMode, access: AccessType, tval: u64) -> (r: Result<(), MmuFault>)
    ensures
        r is Ok <==> perm_ok(perm, mstatus, mode, access),
        r matches Err(f) ==> f == (MmuFault { cause: pf_cause_spec(access), tval }),
{
    let fault = MmuFault { cause: pf_cause(access), tval };
    let u_bit = perm & PTE_U != 0;
    match mode {
        PrivMode::U => {
            if !u_bit {
                return Err(fault);
            }
        },
        PrivMode::S => {
            // S-mode never fetches from U pages, and loads or stores them
            // only with mstatus.SUM=1.
            if u_bit && (access == AccessType::Fetch || (mstatus >> 18) & 1 != 1) {
                return Err(fault);
            }
        },
        PrivMode::M => {},
    }
    match access {
        AccessType::Fetch => {
            if perm & PTE_X == 0 {
                return Err(fault);
            }
        },
        AccessType::Load => {
            // MXR: execute-only pages are readable.
            let mxr = (mstatus >> 19) & 1;
            if perm & PTE_R == 0 && !(mxr != 0 && perm & PTE_X != 0) {
                return Err(fault);
            }
        },
        AccessType::Store => {
            if perm & PTE_W == 0 {
                return Err(fault);
            }
        },
    }
    Ok(())
}

/// A leaf that the walk finds is the PTE stored in RAM at its address.
proof fn lemma_walk_leaf(mem: Seq<u8>, base: u64, table: u64, addr: u64, level: nat)
    ensures
        walk(mem, base, table, addr, level) matches Walk::Leaf { pte, pte_addr, .. }
            ==> mem_in_range(mem, base, pte_addr, 8) && pte == mem_read(mem, base, pte_addr, 8) as u64,
    decreases 3 - level,
{
    if level < 3 {
        let pte_addr = (table + vpn_part(addr, level) * 8) as u64;
        if mem_in_range(mem, base, pte_addr, 8) {
            let pte = mem_read(mem, base, pte_addr, 8) as u64;
            lemma_walk_leaf(mem, base, table_of(pte >> 10), addr, level + 1);
        }
    }
}

/// A u64 written back as 8 bytes of RAM reads back unchanged.
proof fn lemma_pte_read_back(mem: Seq<u8>, base: u64, pte_addr: u64, v: u64)
    requires
        mem_in_range(mem, base, pte_addr, 8),
    ensures
        mem_read(mem_write(mem, base, pte_addr, 8, v as nat), base, pte_addr, 8) == v,
{
    lemma_load_after_store(mem, base, pte_addr, 8, v as nat);
    lemma_pow256_facts();
}

/// Hardware A/D update: a translation that succeeds leaves the PTE it used
/// with A set, and D for a store, every other bit as it was. After a walk
/// that PTE is the leaf read from RAM; after a TLB hit that had to record A
/// or D, it is the PTE read again at the address the TLB entry came from.
pub proof fn lemma_translate_sets_ad(
    tlb: Seq<TlbEntry>, mem: Seq<u8>, base: u64, satp: u64, mode: PrivMode, mstatus: u64,
    addr: u64, access: AccessType,
)
    requires
        translation_on(satp, mode),
        translate_spec(tlb, mem, base, satp, mode, mstatus, addr, access).0 is Ok,
    ensures
        ({
            let e = tlb[tlb_index(addr >> 12)];
            let mem2 = translate_spec(tlb, mem, base, satp, mode, mstatus, addr, access).2;
            &&& !tlb_hit(e, addr >> 12, asid_of(satp)) ==> (walk(mem, base, table_of(satp), addr, 0) matches Walk::Leaf { pte, pte_addr, .. }
                && pte == mem_read(mem, base, pte_addr, 8) as u64
                && mem_read(mem2, base, pte_addr, 8) == ad_update(pte, access))
            &&& tlb_hit(e, addr >> 12, asid_of(satp)) && ad_update(e.perm, access) != e.perm
                && mem_in_range(mem, base, e.pte_addr, 8)
                ==> mem_read(mem2, base, e.pte_addr, 8) == ad_update(mem_read(mem, base, e.pte_addr, 8) as u64, access)
        }),
{
    let e = tlb[tlb_index(addr >> 12)];
    lemma_walk_leaf(mem, base, table_of(satp), addr, 0);
    lemma_pow256_facts();
    if tlb_hit(e, addr >> 12, asid_of(satp)) {
        if ad_update(e.perm, access) != e.perm && mem_in_range(mem, base, e.pte_addr, 8) {
            lemma_le_value_bound(mem, e.pte_addr - base, 8);
            lemma_pte_read_back(mem, base, e.pte_addr, ad_update(mem_read(mem, base, e.pte_addr, 8) as u64, access));
        }
    } else {
        if let Walk::Leaf { pte, pte_addr, .. } = walk(mem, base, table_of(satp), addr, 0) {
            let new_pte = ad_update(pte, access);
            lemma_le_value_bound(mem, pte_addr - base, 8);
            if new_pte != pte {
                lemma_pte_read_back(mem, base, pte_addr, new_pte);
            }
        }
    }
}

/// With translation off (M-mode, or satp not in Sv39 mode) an address maps to
/// itself and nothing changes.
pub proof fn lemma_translate_passthrough(
    tlb: Seq<TlbEntry>, mem: Seq<u8>, base: u64, satp: u64, mode: PrivMode, mstatus: u64,
    addr: u64, access: AccessType,
)
    requires
        mode == PrivMode::M || (satp >> 60) != 8,
    ensures
        translate_spec(tlb, mem, base, satp, mode, mstatus, addr, access) == (Ok::<u64, MmuFault>(addr), tlb, mem),
{
}

/// A non-canonical Sv39 address takes a page fault for its access type.
pub proof fn lemma_translate_non_canonical(
    tlb: Seq<TlbEntry>, mem: Seq<u8>, base: u64, satp: u64, mode: PrivMode, mstatus: u64,
    addr: u64, access: AccessType,
)
    requires
        translation_on(satp, mode),
        !canonical(addr),
    ensures
        translate_spec(tlb, mem, base, satp, mode, mstatus, addr, access).0
            == Err::<u64, MmuFault>(MmuFault { cause: pf_cause_spec(access), tval: addr }),
{
}

/// A failed translation reports the page-fault or access-fault cause of the
/// access, with the virtual address as tval.
pub proof fn lemma_translate_fault_cause(
    tlb: Seq<TlbEntry>, mem: Seq<u8>, base: u64, satp: u64, mode: PrivMode, mstatus: u64,
    addr: u64, access: AccessType,
)
    ensures
        translate_spec(tlb, mem, base, satp, mode, mstatus, addr, access).0 matches Err(f) ==>
            (f.cause == pf_cause_spec(access) || f.cause == af_cause_spec(access)) && f.tval == addr,
{
}

/// Bit facts about page numbers, offsets and permission bits.
proof fn lemma_mmu_bits()
    by (bit_vector)
    ensures
        forall|v: u64| #[trigger] (v & 63) < 64,
        forall|v: u64| #[trigger] (v & 0x1FF) <= 0x1FF,
        forall|v: u64| #[trigger] ((v & 0x0FFF_FFFF_FFFF) << 12) <= 0xFFFF_FFFF_FFFF_F000,
        forall|x: u64, a: u64| #[trigger] ((x << 12) | (a & 0xFFF)) & 0xFFF == a & 0xFFF,
        forall|x: u64, a: u64| #[trigger] (((x >> 9) << 21) | (a & 0x1F_FFFF)) & 0xFFF == a & 0xFFF,
        forall|x: u64, a: u64| #[trigger] (((x >> 18) << 30) | (a & 0x3FFF_FFFF)) & 0xFFF == a & 0xFFF,
        forall|x: u64, a: u64| #[trigger] (((x << 12) | (a & 0xFFF)) & !0xFFFu64) == x << 12,
        forall|a: u64, b: u64| #![trigger a >> 12u64, b >> 12u64] a >> 12u64 == b >> 12u64 ==> a >> 38u64 == b >> 38u64,
        forall|p: u64| #[trigger] ((p | 64u64) | 64u64) == p | 64u64,
        forall|p: u64| #[trigger] ((p | 64u64) | 128u64) == p | 192u64,
        forall|p: u64| #[trigger] (((p | 64u64) & 0xFFu64) | 64u64) == (p | 64u64) & 0xFFu64,
        forall|p: u64, m: u64| #![trigger p | m] (m == 64 || m == 192) ==> ((p | m) & 16 == p & 16
            && (p | m) & 8 == p & 8 && (p | m) & 2 == p & 2 && (p | m) & 4 == p & 4
            && ((p | m) & 0xFF) & 16 == (p & 0xFF) & 16 && ((p | m) & 0xFF) & 8 == (p & 0xFF) & 8
            && ((p | m) & 0xFF) & 2 == (p & 0xFF) & 2 && ((p | m) & 0xFF) & 4 == (p & 0xFF) & 4),
        64u64 | 128u64 == 192u64,
{
}

/// Translation keeps the offset within the 4 KiB page.
pub proof fn lemma_translate_page_offset(
    tlb: Seq<TlbEntry>, mem: Seq<u8>, base: u64, satp: u64, mode: PrivMode, mstatus: u64,
    addr: u64, access: AccessType,
)
    ensures
        translate_spec(tlb, mem, base, satp, mode, mstatus, addr, access).0 matches Ok(pa) ==>
            pa & 0xFFF == addr & 0xFFF,
{
    lemma_mmu_bits();
}

/// How the physical address of a leaf is made, bit by bit, for each page size.
proof fn lemma_leaf_pa_bits(pte: u64, addr: u64)
    by (bit_vector)
    ensures
        ((((pte >> 10) & 0x0FFF_FFFF_FFFF) << 12) | (addr & 0xFFF)) >> 12 == (pte >> 10) & 0x0FFF_FFFF_FFFF,
        ((((pte >> 10) & 0x0FFF_FFFF_FFFF) << 12) | (addr & 0xFFF)) & 0xFFF == addr & 0xFFF,
        (((((pte >> 10) & 0x0FFF_FFFF_FFFF) >> 9) << 21) | (addr & 0x1F_FFFF)) >> 21
            == ((pte >> 10) & 0x0FFF_FFFF_FFFF) >> 9,
        (((((pte >> 10) & 0x0FFF_FFFF_FFFF) >> 9) << 21) | (addr & 0x1F_FFFF)) & 0x1F_FFFF == addr & 0x1F_FFFF,
        (((((pte >> 10) & 0x0FFF_FFFF_FFFF) >> 18) << 30) | (addr & 0x3FFF_FFFF)) >> 30
            == ((pte >> 10) & 0x0FFF_FFFF_FFFF) >> 18,
        (((((pte >> 10) & 0x0FFF_FFFF_FFFF) >> 18) << 30) | (addr & 0x3FFF_FFFF)) & 0x3FFF_FFFF
            == addr & 0x3FFF_FFFF,
{
}

/// A walk maps by the size of the page its leaf stands for: a leaf at the
/// bottom level maps a 4 KiB page (the physical page number is the leaf's PPN,
/// the low 12 address bits are kept), one a level up a 2 MiB megapage (PPN
/// bits 43..9 give physical bits 55..21, the low 21 address bits are kept), and
/// one at the root a 1 GiB gigapage (PPN bits 43..18, the low 30 bits kept).
pub proof fn lemma_translate_page_size(
    tlb: Seq<TlbEntry>, mem: Seq<u8>, base: u64, satp: u64, mode: PrivMode, mstatus: u64,
    addr: u64, access: AccessType,
)
    requires
        translation_on(satp, mode),
        !tlb_hit(tlb[tlb_index(addr >> 12)], addr >> 12, asid_of(satp)),
    ensures
        ({
            let r = translate_spec(tlb, mem, base, satp, mode, mstatus, addr, access).0;
            walk(mem, base, table_of(satp), addr, 0) matches Walk::Leaf { level, pte, .. } ==> {
                let ppn = (pte >> 10) & PPN_MASK;
                r matches Ok(pa) ==> {
                    &&& level == 2 ==> pa >> 12 == ppn && pa & 0xFFF == addr & 0xFFF
                    &&& level == 1 ==> pa >> 21 == ppn >> 9 && pa & 0x1F_FFFF == addr & 0x1F_FFFF
                    &&& level == 0 ==> pa >> 30 == ppn >> 18 && pa & 0x3FFF_FFFF == addr & 0x3FFF_FFFF
                }
            }
        }),
{
    if let Walk::Leaf { level, pte, .. } = walk(mem, base, table_of(satp), addr, 0) {
        lemma_walk_level(mem, base, table_of(satp), addr, 0);
        lemma_leaf_pa_bits(pte, addr);
    }
}

/// The permission bits that a translation used: those cached in the TLB entry
/// on a hit, else the low byte of the leaf PTE that the walk found.
pub open spec fn used_perm(
    tlb: Seq<TlbEntry>, mem: Seq<u8>, base: u64, satp: u64, addr: u64,
) -> u64 {
    let e = tlb[tlb_index(addr >> 12)];
    if tlb_hit(e, addr >> 12, asid_of(satp)) {
        e.perm
    } else {
        match walk(mem, base, table_of(satp), addr, 0) {
            Walk::Leaf { pte, .. } => pte & 0xFF,
            _ => 0,
        }
    }
}

/// A translation succeeds only as the page's permissions allow: U-mode only on
/// user pages; S-mode never fetches from a user page and reaches one for loads
/// and stores only with mstatus.SUM; a fetch needs X, a store W, and a load R
/// (or X with mstatus.MXR).
pub proof fn lemma_translate_permissions(
    tlb: Seq<TlbEntry>, mem: Seq<u8>, base: u64, satp: u64, mode: PrivMode, mstatus: u64,
    addr: u64, access: AccessType,
)
    requires
        translation_on(satp, mode),
        translate_spec(tlb, mem, base, satp, mode, mstatus, addr, access).0 is Ok,
    ensures
        ({
            let perm = used_perm(tlb, mem, base, satp, addr);
            &&& mode == PrivMode::U ==> perm & PTE_U != 0
            &&& mode == PrivMode::S && access == AccessType::Fetch ==> perm & PTE_U == 0
            &&& mode == PrivMode::S && perm & PTE_U != 0 ==> (mstatus >> 18) & 1 == 1
            &&& access == AccessType::Fetch ==> perm & PTE_X != 0
            &&& access == AccessType::Store ==> perm & PTE_W != 0
            &&& access == AccessType::Load ==> perm & PTE_R != 0 || ((mstatus >> 19) & 1 != 0 && perm & PTE_X != 0)
        }),
{
}

/// The walk finds leaves only at levels 0 to 2.
proof fn lemma_walk_level(mem: Seq<u8>, base: u64, table: u64, addr: u64, level: nat)
    ensures
        walk(mem, base, table, addr, level) matches Walk::Leaf { level: l, .. } ==> l <= 2,
    decreases 3 - level,
{
    if level < 3 {
        let pte_addr = (table + vpn_part(addr, level) * 8) as u64;
        if mem_in_range(mem, base, pte_addr, 8) {
            let pte = mem_read(mem, base, pte_addr, 8) as u64;
            lemma_walk_level(mem, base, table_of(pte >> 10), addr, level + 1);
        }
    }
}

/// After a flush no cached translation is used: translating reads the page tables.
pub proof fn lemma_flush_forces_walk(
    tlb: Seq<TlbEntry>, mem: Seq<u8>, base: u64, satp: u64, mode: PrivMode, mstatus: u64,
    addr: u64, access: AccessType,
)
    requires
        tlb.len() == 64,
        translation_on(satp, mode),
        canonical(addr),
    ensures
        ({
            let f = Seq::new(64, |i: int| TlbEntry { valid: false, ..tlb[i] });
            translate_spec(f, mem, base, satp, mode, mstatus, addr, access)
                == translate_miss(f, mem, base, satp, mode, mstatus, addr, access)
        }),
{
    lemma_mmu_bits();
    assert((addr >> 12) & 63 < 64);
}

/// The A/D bits do not take part in the permission check.
proof fn lemma_perm_ok_ad(perm: u64, mstatus: u64, mode: PrivMode, access: AccessType, a: AccessType)
    ensures
        perm_ok(ad_update(perm, a), mstatus, mode, access) == perm_ok(perm, mstatus, mode, access),
        perm_ok(ad_update(perm, a) & 0xFF, mstatus, mode, access) == perm_ok(perm & 0xFF, mstatus, mode, access),
{
    lemma_mmu_bits();
}

/// Once a page's translation is cached, every address in that page translates
/// through the cache to the same physical page, with the same access, privilege,
/// satp and mstatus, and without touching RAM for a load.
pub proof fn lemma_tlb_same_page(
    tlb: Seq<TlbEntry>, mem: Seq<u8>, base: u64, satp: u64, mode: PrivMode, mstatus: u64,
    addr1: u64, addr2: u64,
)
    requires
        tlb.len() == 64,
        addr1 >> 12 == addr2 >> 12,
        translate_spec(tlb, mem, base, satp, mode, mstatus, addr1, AccessType::Load).0 is Ok,
        translation_on(satp, mode),
        tlb_hit(translate_spec(tlb, mem, base, satp, mode, mstatus, addr1, AccessType::Load).1[tlb_index(addr1 >> 12)],
            addr1 >> 12, asid_of(satp)),
    ensures
        ({
            let (r1, tlb2, mem2) = translate_spec(tlb, mem, base, satp, mode, mstatus, addr1, AccessType::Load);
            let pa1 = r1->Ok_0;
            translate_spec(tlb2, mem2, base, satp, mode, mstatus, addr2, AccessType::Load)
                == (Ok::<u64, MmuFault>((pa1 & !0xFFFu64) | (addr2 & 0xFFF)), tlb2, mem2)
        }),
{
    let vpn = addr1 >> 12;
    let e = tlb[tlb_index(vpn)];
    lemma_mmu_bits();
    assert(vpn & 63 < 64);
    assert(addr1 >> 38 == addr2 >> 38);
    lemma_perm_ok_ad(e.perm, mstatus, mode, AccessType::Load, AccessType::Load);
    match walk(mem, base, table_of(satp), addr1, 0) {
        Walk::Leaf { level, pte, pte_addr } => {
            lemma_perm_ok_ad(pte, mstatus, mode, AccessType::Load, AccessType::Load);
        },
        _ => {},
    }
}

impl Mmu {
    pub open spec fn empty_entry() -> TlbEntry {
        TlbEntry { valid: false, vpn: 0, ppn: 0, perm: 0, asid: 0, pte_addr: 0 }
    }

    pub fn new() -> (m: Self)
        ensures
            m.tlb@ == Seq::new(64, |i: int| Mmu::empty_entry()),
    {
        let empty = TlbEntry { valid: false, vpn: 0, ppn: 0, perm: 0, asid: 0, pte_addr: 0 };
        let m = Mmu { tlb: [empty; 64] };
        assert(m.tlb@ =~= Seq::new(64, |i: int| Mmu::empty_entry()));
        m
    }

    /// Invalidate every TLB entry.
    pub fn flush(&mut self)
        ensures
            final(self).tlb@.len() == 64,
            forall|i: int| 0 <= i < 64 ==> !(#[trigger] final(self).tlb@[i]).valid,
            forall|i: int| 0 <= i < 64 ==> (#[trigger] final(self).tlb@[i]) == (TlbEntry { valid: false, ..old(self).tlb@[i] }),
    {
        let mut i: usize = 0;
        while i < TLB_SIZE
            invariant
                i <= 64,
                self.tlb@.len() == 64,
                forall|j: int| 0 <= j < i ==> (#[trigger] self.tlb@[j]) == (TlbEntry { valid: false, ..old(self).tlb@[j] }),
                forall|j: int| i <= j < 64 ==> (#[trigger] self.tlb@[j]) == old(self).tlb@[j],
            decreases 64 - i,
        {
            let mut e = self.tlb[i];
            e.valid = false;
            self.tlb[i] = e;
            i = i + 1;
        }
    }

    /// Translate `addr` for `access` from `mode`, using the TLB, walking the Sv39
    /// tables in RAM on a miss and updating the A/D bits of the leaf PTE.
    pub fn translate(
        &mut self,
        bus: &mut Bus,
        satp: u64,
        mode: PrivMode,
        mstatus: u64,
        addr: u64,
        access: AccessType,
    ) -> (r: Result<u64, MmuFault>)
        ensures
            (r, final(self).tlb@, final(bus)@) == translate_spec(
                old(self).tlb@, old(bus)@, old(bus).base(), satp, mode, mstatus, addr, access),
            final(bus).base() == old(bus).base(),
            final(bus).devs() == old(bus).devs(),
    {
        if (satp >> 60) != 8 || mode == PrivMode::M {
            return Ok(addr);
        }

        let vpn: u64 = addr >> 12;
        let page_offset: u64 = addr & 0xFFF;
        let asid: u16 = ((satp >> 44) & 0xFFFF) as u16;

        // Canonical VA check: bits[63:39] must sign-extend bit[38].
        let top = addr >> 38;
        if top != 0 && top != 0x3FF_FFFF {
            return Err(MmuFault { cause: pf_cause(access), tval: addr });
        }

        // TLB lookup: direct-mapped by vpn & (TLB_SIZE-1)
        let idx: usize = (vpn & 63) as usize;
        proof {
            lemma_mmu_bits();
        }
        assert(idx as int == tlb_index(vpn));
        let e = self.tlb[idx];
        assert(e == old(self).tlb@[tlb_index(vpn)]);
        if e.valid && e.vpn == vpn && (e.asid == asid || e.perm & PTE_G != 0) {
            check_perms(e.perm, mstatus, mode, access, addr)?;
            // Hardware A/D update on a hit
            let mut new_perm = e.perm | PTE_A;
            if access == AccessType::Store {
                new_perm = new_perm | PTE_D;
            }
            if new_perm != e.perm {
                if let Ok(pte) = bus.load_ram(e.pte_addr, 8) {
                    proof {
                        lemma_pow256_facts();
                        lemma_le_value_bound(bus@, e.pte_addr - bus.base(), 8);
                    }
                    let mut new_pte = pte | PTE_A;
                    if access == AccessType::Store {
                        new_pte = new_pte | PTE_D;
                    }
                    let _ = bus.store_ram(e.pte_addr, 8, new_pte);
                }
                let mut e2 = e;
                e2.perm = new_perm;
                self.tlb[idx] = e2;
            }
            return Ok((e.ppn << 12) | page_offset);
        }
        self.walk_and_fill(bus, satp, mode, mstatus, addr, access, idx)
    }

    fn walk_and_fill(
        &mut self,
        bus: &mut Bus,
        satp: u64,
        mode: PrivMode,
        mstatus: u64,
        addr: u64,
        access: AccessType,
        idx: usize,
    ) -> (r: Result<u64, MmuFault>)
        requires
            idx == tlb_index(addr >> 12),
            old(self).tlb@.len() == 64,
        ensures
            (r, final(self).tlb@, final(bus)@) == translate_miss(
                old(self).tlb@, old(bus)@, old(bus).base(), satp, mode, mstatus, addr, access),
            final(bus).base() == old(bus).base(),
            final(bus).devs() == old(bus).devs(),
    {
        let vpn: u64 = addr >> 12;
        let asid: u16 = ((satp >> 44) & 0xFFFF) as u16;
        proof {
            lemma_mmu_bits();
        }
        assert((vpn & 63) < 64);
        let ghost mem = bus@;
        let ghost base = bus.base();
        // 3-level Sv39 walk. VPN[2]=bits[38:30], VPN[1]=bits[29:21], VPN[0]=bits[20:12].
        let mut table_pa = (satp & PPN_MASK) << 12;
        let mut level: usize = 0;
        assert(table_pa <= 0xFFFF_FFFF_FFFF_F000);
        while level < 3
            invariant
                level <= 3,
                table_pa <= 0xFFFF_FFFF_FFFF_F000,
                bus@ == mem,
                bus.base() == base,
                bus.devs() == old(bus).devs(),
                self.tlb@ == old(self).tlb@,
                mem == old(bus)@,
                base == old(bus).base(),
                walk(mem, base, table_of(satp), addr, 0) == walk(mem, base, table_pa, addr, level as nat),
                idx == tlb_index(vpn),
                idx < 64,
                vpn == addr >> 12,
                asid == asid_of(satp),
                self.tlb@.len() == 64,
            decreases 3 - level,
        {
            let part: u64 = if level == 0 {
                (addr >> 30) & 0x1FF
            } else if level == 1 {
                (addr >> 21) & 0x1FF
            } else {
                (addr >> 12) & 0x1FF
            };
            proof {
                lemma_mmu_bits();
            }
            assert(part <= 0x1FF);
            assert(part == vpn_part(addr, level as nat));
            let pte_addr = table_pa + part * 8;
            let pte = match bus.load_ram(pte_addr, 8) {
                Ok(v) => v,
                Err(_) => {
                    return Err(MmuFault { cause: af_cause(access), tval: addr });
                },
            };
            proof {
                lemma_pow256_facts();
                lemma_le_value_bound(mem, pte_addr - base, 8);
            }
            assert(pte == mem_read(mem, base, pte_addr, 8) as u64);

            if pte & PTE_V == 0 || (pte & PTE_W != 0 && pte & PTE_R == 0) {
                return Err(MmuFault { cause: pf_cause(access), tval: addr });
            }

            if pte & (PTE_R | PTE_X) != 0 {
                // Leaf PTE at this level
                let ppn = (pte >> 10) & PPN_MASK;
                let rem: usize = 2 - level;
                let misaligned = if rem == 0 {
                    false
                } else if rem == 1 {
                    ppn & 0x1FF != 0
                } else {
                    ppn & 0x3FFFF != 0
                };
                if misaligned {
                    return Err(MmuFault { cause: pf_cause(access), tval: addr });
                }
                check_perms(pte & 0xFF, mstatus, mode, access, addr)?;

                // Hardware A/D bit update.
                let mut new_pte = pte | PTE_A;
                if access == AccessType::Store {
                    new_pte = new_pte | PTE_D;
                }
                if new_pte != pte {
                    match bus.store_ram(pte_addr, 8, new_pte) {
                        Ok(()) => {},
                        Err(_) => {
                            return Err(MmuFault { cause: af_cause(access), tval: addr });
                        },
                    }
                }

                let pa = if rem == 0 {
                    (ppn << 12) | (addr & 0xFFF)
                } else if rem == 1 {
                    ((ppn >> 9) << 21) | (addr & 0x1F_FFFF)
                } else {
                    ((ppn >> 18) << 30) | (addr & 0x3FFF_FFFF)
                };

                // Cache 4 KiB pages only.
                if rem == 0 {
                    self.tlb[idx] = TlbEntry {
                        valid: true,
                        vpn,
                        ppn,
                        perm: new_pte & 0xFF,
                        asid,
                        pte_addr,
                    };
                }
                return Ok(pa);
            }

            // Non-leaf: descend
            let next = ((pte >> 10) & PPN_MASK) << 12;
            assert(next <= 0xFFFF_FFFF_FFFF_F000);
            table_pa = next;
            level = level + 1;
        }
        Err(MmuFault { cause: pf_cause(access), tval: addr })
    }
}

} // verus!
