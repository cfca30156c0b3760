use vstd::prelude::*;
use crate::bus::{le_value, write_le, byte_of, pow256, mem_in_range, lemma_pow256_facts};

verus! {

// virtio-blk MMIO device, virtio 1.1 section 4.2 (modern transport).
//
// Virtqueue layout (set by the driver through QueueDesc/Driver/Device Low/High):
//   desc table  : QUEUE_SIZE x 16-byte descriptors {u64 addr, u32 len, u16 flags, u16 next}
//   driver ring : flags(u16) idx(u16) ring[QUEUE_SIZE](u16)
//   device ring : flags(u16) idx(u16) ring[QUEUE_SIZE]({u32 id, u32 len})
//
// A request is a descriptor chain: a 16-byte header {u32 type, u32 reserved,
// u64 sector}, data descriptors, and a one-byte status written by the device.

pub const VIRTIO_MAGIC: u32 = 0x7472_6976;
pub const VIRTIO_VERSION: u32 = 2;
pub const VIRTIO_DEVICE_BLK: u32 = 2;
pub const VIRTIO_VENDOR: u32 = 0x554D_4551;

pub const QUEUE_SIZE: u16 = 256;
pub const SECTOR_SIZE: u64 = 512;

/// Descriptor flags.
pub const DESC_F_NEXT: u16 = 1;
pub const DESC_F_WRITE: u16 = 2;

/// Request types.
pub const T_IN: u32 = 0;
pub const T_OUT: u32 = 1;
pub const T_FLUSH: u32 = 4;

/// Status bytes.
pub const S_OK: u8 = 0;
pub const S_IOERR: u8 = 1;

/// Read the little-endian u16 at guest physical `addr` of `ram`, which starts at `base`.
pub fn r16(ram: &[u8], base: u64, addr: u64) -> (r: u16)
    requires
        mem_in_range(ram@, base, addr, 2),
    ensures
        r == le_value(ram@, addr - base, 2),
{
    let n: usize = ram.len();
    let o: usize = (addr - base) as usize;
    proof {
        reveal_with_fuel(le_value, 3);
    }
    ram[o] as u16 + (ram[o + 1] as u16) * 256
}

/// The little-endian u32 at offset `o` of `ram`.
fn le32_at(ram: &[u8], o: usize) -> (r: u32)
    requires
        o + 4 <= ram@.len(),
    ensures
        r == le_value(ram@, o as int, 4),
{
    proof {
        reveal_with_fuel(le_value, 5);
    }
    ram[o] as u32 + (ram[o + 1] as u32) * 0x100 + (ram[o + 2] as u32) * 0x1_0000 + (ram[o + 3] as u32) * 0x100_0000
}

/// Read the little-endian u32 at guest physical `addr`.
pub fn r32(ram: &[u8], base: u64, addr: u64) -> (r: u32)
    requires
        mem_in_range(ram@, base, addr, 4),
    ensures
        r == le_value(ram@, addr - base, 4),
{
    let n: usize = ram.len();
    let o: usize = (addr - base) as usize;
    le32_at(ram, o)
}

/// Read the little-endian u64 at guest physical `addr`.
pub fn r64(ram: &[u8], base: u64, addr: u64) -> (r: u64)
    requires
        mem_in_range(ram@, base, addr, 8),
    ensures
        r == le_value(ram@, addr - base, 8),
{
    let n: usize = ram.len();
    let o: usize = (addr - base) as usize;
    let lo: u32 = le32_at(ram, o);
    let hi: u32 = le32_at(ram, o + 4);
    proof {
        lemma_le_value_split(ram@, o as int, 4, 4);
        lemma_pow256_facts();
    }
    lo as u64 + (hi as u64) * 0x1_0000_0000
}

/// Write the byte `val` at guest physical `addr`.
pub fn w8(ram: &mut [u8], base: u64, addr: u64, val: u8)
    requires
        mem_in_range(old(ram)@, base, addr, 1),
    ensures
        final(ram)@ == write_le(old(ram)@, addr - base, 1, val as nat),
{
    let n: usize = ram.len();
    let o: usize = (addr - base) as usize;
    ram[o] = val;
    proof {
        lemma_pow256_facts();
    }
    assert(final(ram)@ =~= write_le(old(ram)@, addr - base, 1, val as nat));
}

/// Write the little-endian u16 `val` at guest physical `addr`.
pub fn w16(ram: &mut [u8], base: u64, addr: u64, val: u16)
    requires
        mem_in_range(old(ram)@, base, addr, 2),
    ensures
        final(ram)@ == write_le(old(ram)@, addr - base, 2, val as nat),
{
    let n: usize = ram.len();
    let o: usize = (addr - base) as usize;
    ram[o] = (val % 256) as u8;
    ram[o + 1] = (val / 256) as u8;
    proof {
        lemma_pow256_facts();
        assert(byte_of(val as nat, 0) == val % 256);
        assert(byte_of(val as nat, 1) == val / 256);
    }
    assert(final(ram)@ =~= write_le(old(ram)@, addr - base, 2, val as nat));
}

/// Write the little-endian u32 `val` at guest physical `addr`.
pub fn w32(ram: &mut [u8], base: u64, addr: u64, val: u32)
    requires
        mem_in_range(old(ram)@, base, addr, 4),
    ensures
        final(ram)@ == write_le(old(ram)@, addr - base, 4, val as nat),
{
    let n: usize = ram.len();
    let o: usize = (addr - base) as usize;
    ram[o] = (val % 0x100) as u8;
    ram[o + 1] = ((val / 0x100) % 0x100) as u8;
    ram[o + 2] = ((val / 0x1_0000) % 0x100) as u8;
    ram[o + 3] = (val / 0x100_0000) as u8;
    proof {
        lemma_pow256_facts();
        assert(byte_of(val as nat, 0) == val % 0x100);
        assert(byte_of(val as nat, 1) == (val / 0x100) % 0x100);
        assert(byte_of(val as nat, 2) == (val / 0x1_0000) % 0x100);
        assert(byte_of(val as nat, 3) == val / 0x100_0000);
    }
    assert(final(ram)@ =~= write_le(old(ram)@, addr - base, 4, val as nat));
}

/// The value of `a + b` bytes read little-endian is the first `a` bytes plus
/// `256^a` times the next `b`.
pub proof fn lemma_le_value_split(s: Seq<u8>, off: int, a: nat, b: nat)
    ensures
        le_value(s, off, a + b) == le_value(s, off, a) + pow256(a) * le_value(s, off + a, b),
    decreases a,
{
    if a > 0 {
        let a1 = (a - 1) as nat;
        lemma_le_value_split(s, off + 1, a1, b);
        assert(off + 1 + a1 == off + a);
        assert((a + b - 1) as nat == a1 + b);
        assert(le_value(s, off, a + b) == s[off] as nat + 256 * le_value(s, off + 1, a1 + b));
        assert(le_value(s, off, a) == s[off] as nat + 256 * le_value(s, off + 1, a1));
        assert(pow256(a) == 256 * pow256(a1));
        let x = le_value(s, off + 1, a1);
        let p = pow256(a1);
        let y = le_value(s, off + a, b);
        assert(256 * (x + p * y) == 256 * x + (256 * p) * y) by (nonlinear_arith);
    } else {
        assert(a + b == b);
        assert(off + a == off);
        assert(pow256(0) == 1);
    }
}

/// A guest physical address that a request needs lies outside RAM.
#[derive(Debug, Clone, Copy, PartialEq, Eq, Structural)]
pub struct GuestRamFault {
    pub addr: u64,
}

/// The device registers as the specifications see them.
pub ghost struct VirtioRegs {
    pub capacity: u64,
    pub has_disk: bool,
    pub device_features_sel: u32,
    pub driver_features: Seq<u32>,
    pub driver_features_sel: u32,
    pub device_status: u32,
    pub queue_num: u32,
    pub queue_ready: u32,
    pub desc_addr: u64,
    pub avail_addr: u64,
    pub used_addr: u64,
    pub irq_status: u32,
    pub last_avail_idx: u16,
}

/// A virtio block device: its MMIO registers and virtqueue position. The disk
/// itself is read and written by the caller; the device knows its size and
/// whether one is attached.
pub struct VirtioBlk {
    /// Disk size in 512-byte sectors.
    pub capacity: u64,
    pub has_disk: bool,
    pub debug: bool,
    pub device_features_sel: u32,
    pub driver_features: [u32; 2],
    pub driver_features_sel: u32,
    pub device_status: u32,
    pub queue_num: u32,
    pub queue_ready: u32,
    /// Guest physical address of the descriptor table.
    pub desc_addr: u64,
    /// Guest physical address of the driver (available) ring.
    pub avail_addr: u64,
    /// Guest physical address of the device (used) ring.
    pub used_addr: u64,
    /// Bit 0: a used-buffer notification is pending.
    pub irq_status: u32,
    /// How far the available ring has been processed.
    pub last_avail_idx: u16,
}

impl View for VirtioBlk {
    type V = VirtioRegs;

    open spec fn view(&self) -> VirtioRegs {
        VirtioRegs {
            capacity: self.capacity,
            has_disk: self.has_disk,
            device_features_sel: self.device_features_sel,
            driver_features: self.driver_features@,
            driver_features_sel: self.driver_features_sel,
            device_status: self.device_status,
            queue_num: self.queue_num,
            queue_ready: self.queue_ready,
            desc_addr: self.desc_addr,
            avail_addr: self.avail_addr,
            used_addr: self.used_addr,
            irq_status: self.irq_status,
            last_avail_idx: self.last_avail_idx,
        }
    }
}

/// What a load of register `off` returns.
pub open spec fn virtio_load_spec(v: VirtioRegs, off: u64) -> u64 {
    if off == 0x000 { VIRTIO_MAGIC as u64 }
    else if off == 0x004 { VIRTIO_VERSION as u64 }
    else if off == 0x008 { VIRTIO_DEVICE_BLK as u64 }
    else if off == 0x00C { VIRTIO_VENDOR as u64 }
    else if off == 0x010 { if v.device_features_sel == 0 { 0 } else { 1 } }
    else if off == 0x034 { QUEUE_SIZE as u64 }
    else if off == 0x038 { v.queue_num as u64 }
    else if off == 0x044 { v.queue_ready as u64 }
    else if off == 0x060 { v.irq_status as u64 }
    else if off == 0x070 { v.device_status as u64 }
    else if off == 0x100 { v.capacity % 0x1_0000_0000 }
    else if off == 0x104 { v.capacity / 0x1_0000_0000 }
    else { 0 }
}

/// The registers after a device reset (status written 0): the queue is forgotten.
pub open spec fn virtio_reset_spec(v: VirtioRegs) -> VirtioRegs {
    VirtioRegs { queue_ready: 0, desc_addr: 0, avail_addr: 0, used_addr: 0, irq_status: 0, last_avail_idx: 0, ..v }
}

/// `a` with its low (or high) 32 bits replaced by the low 32 bits of `val`.
pub open spec fn set_half(a: u64, val: u64, high: bool) -> u64 {
    if high { (a & 0x0000_0000_FFFF_FFFF) | (val << 32) } else { (a & 0xFFFF_FFFF_0000_0000) | (val & 0xFFFF_FFFF) }
}

/// The registers after a store of `val` to register `off`, and whether it was a
/// queue notification.
pub open spec fn virtio_store_spec(v: VirtioRegs, off: u64, val: u64) -> (VirtioRegs, bool) {
    if off == 0x014 { (VirtioRegs { device_features_sel: val as u32, ..v }, false) }
    else if off == 0x020 {
        if v.driver_features_sel < 2 {
            (VirtioRegs { driver_features: v.driver_features.update(v.driver_features_sel as int, val as u32), ..v }, false)
        } else {
            (v, false)
        }
    }
    else if off == 0x024 { (VirtioRegs { driver_features_sel: val as u32, ..v }, false) }
    else if off == 0x038 {
        (VirtioRegs { queue_num: if (val as u32) < QUEUE_SIZE as u32 { val as u32 } else { QUEUE_SIZE as u32 }, ..v }, false)
    }
    else if off == 0x044 { (VirtioRegs { queue_ready: val as u32, ..v }, false) }
    else if off == 0x050 { (v, true) }
    else if off == 0x064 { (VirtioRegs { irq_status: v.irq_status & !(val as u32), ..v }, false) }
    else if off == 0x070 {
        let v2 = VirtioRegs { device_status: val as u32, ..v };
        (if val == 0 { virtio_reset_spec(v2) } else { v2 }, false)
    }
    else if off == 0x080 { (VirtioRegs { desc_addr: set_half(v.desc_addr, val, false), ..v }, false) }
    else if off == 0x084 { (VirtioRegs { desc_addr: set_half(v.desc_addr, val, true), ..v }, false) }
    else if off == 0x090 { (VirtioRegs { avail_addr: set_half(v.avail_addr, val, false), ..v }, false) }
    else if off == 0x094 { (VirtioRegs { avail_addr: set_half(v.avail_addr, val, true), ..v }, false) }
    else if off == 0x0a0 { (VirtioRegs { used_addr: set_half(v.used_addr, val, false), ..v }, false) }
    else if off == 0x0a4 { (VirtioRegs { used_addr: set_half(v.used_addr, val, true), ..v }, false) }
    else { (v, false) }
}

impl VirtioBlk {
    /// The reset state of a device with a disk of `disk_len` bytes attached, or none.
    pub open spec fn new_spec(disk_len: Option<u64>) -> VirtioRegs {
        VirtioRegs {
            capacity: match disk_len { Some(n) => n / SECTOR_SIZE, None => 0 },
            has_disk: disk_len is Some,
            device_features_sel: 0,
            driver_features: seq![0u32, 0u32],
            driver_features_sel: 0,
            device_status: 0,
            queue_num: QUEUE_SIZE as u32,
            queue_ready: 0,
            desc_addr: 0,
            avail_addr: 0,
            used_addr: 0,
            irq_status: 0,
            last_avail_idx: 0,
        }
    }

    /// A device with a disk of `disk_len` bytes attached, or none.
    pub fn new(disk_len: Option<u64>) -> (d: Self)
        ensures
            d@ == VirtioBlk::new_spec(disk_len),
            !d.debug,
    {
        let capacity: u64 = match disk_len {
            Some(n) => n / SECTOR_SIZE,
            None => 0,
        };
        let d = VirtioBlk {
            capacity,
            has_disk: disk_len.is_some(),
            debug: false,
            device_features_sel: 0,
            driver_features: [0u32; 2],
            driver_features_sel: 0,
            device_status: 0,
            queue_num: QUEUE_SIZE as u32,
            queue_ready: 0,
            desc_addr: 0,
            avail_addr: 0,
            used_addr: 0,
            irq_status: 0,
            last_avail_idx: 0,
        };
        assert(d.driver_features@ =~= seq![0u32, 0u32]);
        d
    }

    /// Read register `off`.
    pub fn load(&self, off: u64, _width: usize) -> (r: u64)
        ensures
            r == virtio_load_spec(self@, off),
    {
        match off {
            0x000 => VIRTIO_MAGIC as u64,
            0x004 => VIRTIO_VERSION as u64,
            0x008 => VIRTIO_DEVICE_BLK as u64,
            0x00C => VIRTIO_VENDOR as u64,
            0x010 => if self.device_features_sel == 0 { 0 } else { 1 },
            0x034 => QUEUE_SIZE as u64,
            0x038 => self.queue_num as u64,
            0x044 => self.queue_ready as u64,
            0x060 => self.irq_status as u64,
            0x070 => self.device_status as u64,
            0x100 => self.capacity % 0x1_0000_0000,
            0x104 => self.capacity / 0x1_0000_0000,
            _ => 0,
        }
    }

    fn reset(&mut self)
        ensures
            final(self)@ == virtio_reset_spec(old(self)@),
            final(self).debug == old(self).debug,
    {
        self.queue_ready = 0;
        self.desc_addr = 0;
        self.avail_addr = 0;
        self.used_addr = 0;
        self.irq_status = 0;
        self.last_avail_idx = 0;
    }

    /// Write register `off`; returns true for a write to QueueNotify, after
    /// which the caller processes the queue.
    pub fn store(&mut self, off: u64, _width: usize, val: u64) -> (notify: bool)
        ensures
            (final(self)@, notify) == virtio_store_spec(old(self)@, off, val),
            final(self).debug == old(self).debug,
    {
        match off {
            0x014 => self.device_features_sel = val as u32,
            0x020 => {
                let sel: u32 = self.driver_features_sel;
                if sel < 2 {
                    self.driver_features[sel as usize] = val as u32;
                }
            },
            0x024 => self.driver_features_sel = val as u32,
            0x038 => {
                let n: u32 = val as u32;
                self.queue_num = if n < QUEUE_SIZE as u32 { n } else { QUEUE_SIZE as u32 };
            },
            0x044 => self.queue_ready = val as u32,
            0x050 => return true,
            0x064 => self.irq_status = self.irq_status & !(val as u32),
            0x070 => {
                self.device_status = val as u32;
                if val == 0 {
                    self.reset();
                }
            },
            0x080 => self.desc_addr = (self.desc_addr & 0xFFFF_FFFF_0000_0000) | (val & 0xFFFF_FFFF),
            0x084 => self.desc_addr = (self.desc_addr & 0x0000_0000_FFFF_FFFF) | (val << 32),
            0x090 => self.avail_addr = (self.avail_addr & 0xFFFF_FFFF_0000_0000) | (val & 0xFFFF_FFFF),
            0x094 => self.avail_addr = (self.avail_addr & 0x0000_0000_FFFF_FFFF) | (val << 32),
            0x0a0 => self.used_addr = (self.used_addr & 0xFFFF_FFFF_0000_0000) | (val & 0xFFFF_FFFF),
            0x0a4 => self.used_addr = (self.used_addr & 0x0000_0000_FFFF_FFFF) | (val << 32),
            _ => {},
        }
        false
    }
}

/// A virtqueue descriptor.
#[derive(Debug, Clone, Copy, PartialEq, Eq, Structural)]
pub struct Desc {
    pub addr: u64,
    pub len: u32,
    pub flags: u16,
    pub next: u16,
}

/// Whether the `n` bytes at `addr` can be read: inside RAM, with no address overflow.
pub open spec fn guest_readable(ram: Seq<u8>, base: u64, addr: u64, n: nat) -> bool {
    addr + n <= u64::MAX && mem_in_range(ram, base, addr, n)
}

/// The descriptor stored at guest physical `a`.
pub open spec fn desc_at(ram: Seq<u8>, base: u64, a: u64) -> Desc {
    Desc {
        addr: le_value(ram, a - base, 8) as u64,
        len: le_value(ram, a + 8 - base, 4) as u32,
        flags: le_value(ram, a + 12 - base, 2) as u16,
        next: le_value(ram, a + 14 - base, 2) as u16,
    }
}

/// The address of descriptor `idx` of the table at `table`.
pub open spec fn desc_addr_of(table: u64, idx: u16) -> u64 {
    table.wrapping_add(((idx as u64) * 16) as u64)
}

/// The descriptor chain starting at `idx`, following NEXT for at most `fuel`
/// descriptors; None when a descriptor lies outside RAM.
pub open spec fn chain_spec(ram: Seq<u8>, base: u64, table: u64, idx: u16, fuel: nat) -> Option<Seq<Desc>>
    decreases fuel,
{
    if fuel == 0 {
        Some(seq![])
    } else {
        let a = desc_addr_of(table, idx);
        if !guest_readable(ram, base, a, 16) {
            None
        } else {
            let d = desc_at(ram, base, a);
            if d.flags & DESC_F_NEXT == 0 {
                Some(seq![d])
            } else {
                match chain_spec(ram, base, table, d.next, (fuel - 1) as nat) {
                    None => None,
                    Some(rest) => Some(seq![d] + rest),
                }
            }
        }
    }
}

/// `p` in front of the chain `o`, if there is one.
pub open spec fn prepend(p: Seq<Desc>, o: Option<Seq<Desc>>) -> Option<Seq<Desc>> {
    match o {
        None => None,
        Some(r) => Some(p + r),
    }
}

/// A parsed block request: type and sector from the header, the data
/// descriptors, and where the status byte goes.
#[derive(Debug)]
pub struct BlkRequest {
    pub req_type: u32,
    pub sector: u64,
    pub data: Vec<Desc>,
    pub status_addr: u64,
}

impl VirtioBlk {
    /// Read the descriptor at `a`.
    fn read_desc(ram: &[u8], base: u64, a: u64) -> (d: Desc)
        requires
            guest_readable(ram@, base, a, 16),
        ensures
            d == desc_at(ram@, base, a),
    {
        let addr: u64 = r64(ram, base, a);
        let len: u32 = r32(ram, base, a + 8);
        let flags: u16 = r16(ram, base, a + 12);
        let next: u16 = r16(ram, base, a + 14);
        Desc { addr, len, flags, next }
    }

    /// Collect the descriptor chain that starts at `head` (at most 16 descriptors).
    pub fn read_chain(&self, ram: &[u8], base: u64, head: u16) -> (r: Result<Vec<Desc>, GuestRamFault>)
        ensures
            match chain_spec(ram@, base, self.desc_addr, head, 16) {
                None => r is Err,
                Some(c) => r matches Ok(v) && v@ == c,
            },
    {
        let mut descs: Vec<Desc> = Vec::new();
        let mut idx: u16 = head;
        let mut k: usize = 0;
        let mut done = false;
        while k < 16 && !done
            invariant
                k <= 16,
                done ==> chain_spec(ram@, base, self.desc_addr, head, 16) == Some(descs@),
                !done ==> chain_spec(ram@, base, self.desc_addr, head, 16)
                    == prepend(descs@, chain_spec(ram@, base, self.desc_addr, idx, (16 - k) as nat)),
            decreases 16 - k + (if done { 0int } else { 1int }),
        {
            let a: u64 = self.desc_addr.wrapping_add(idx as u64 * 16);
            let n: usize = ram.len();
            if a > u64::MAX - 16 || a < base || a - base > n as u64 || (n as u64) - (a - base) < 16 {
                assert(!guest_readable(ram@, base, a, 16));
                return Err(GuestRamFault { addr: a });
            }
            let d = Self::read_desc(ram, base, a);
            let ghost before = descs@;
            descs.push(d);
            if d.flags & DESC_F_NEXT == 0 {
                assert(before + seq![d] =~= descs@);
                done = true;
            } else {
                assert forall|r: Seq<Desc>| #![auto] before + (seq![d] + r) == descs@ + r by {
                    assert(before + (seq![d] + r) =~= descs@ + r);
                }
                idx = d.next;
                k = k + 1;
            }
        }
        if !done {
            assert(descs@ + seq![] =~= descs@);
        }
        Ok(descs)
    }
}

/// A parsed block request as the specifications see it.
pub ghost struct BlkRequestView {
    pub req_type: u32,
    pub sector: u64,
    pub data: Seq<Desc>,
    pub status_addr: u64,
}

impl View for BlkRequest {
    type V = BlkRequestView;

    open spec fn view(&self) -> BlkRequestView {
        BlkRequestView { req_type: self.req_type, sector: self.sector, data: self.data@, status_addr: self.status_addr }
    }
}

/// The request whose chain starts at `head`: None when a descriptor or the header
/// lies outside RAM, Some(None) when the chain has fewer than two descriptors.
pub open spec fn request_spec(ram: Seq<u8>, base: u64, table: u64, head: u16) -> Option<Option<BlkRequestView>> {
    match chain_spec(ram, base, table, head, 16) {
        None => None,
        Some(c) => {
            if c.len() < 2 {
                Some(None)
            } else {
                let hdr = c[0].addr;
                if !guest_readable(ram, base, hdr, 16) {
                    None
                } else {
                    Some(Some(BlkRequestView {
                        req_type: le_value(ram, hdr - base, 4) as u32,
                        sector: le_value(ram, hdr + 8 - base, 8) as u64,
                        data: c.subrange(1, c.len() - 1),
                        status_addr: c[c.len() - 1].addr,
                    }))
                }
            }
        },
    }
}

/// The head of the next request in the available ring: None when the ring lies
/// outside RAM, Some(None) when every request has been processed.
pub open spec fn pending_head_spec(v: VirtioRegs, ram: Seq<u8>, base: u64) -> Option<Option<u16>> {
    let ia = v.avail_addr.wrapping_add(2);
    if !guest_readable(ram, base, ia, 2) {
        None
    } else if v.last_avail_idx == le_value(ram, ia - base, 2) as u16 {
        Some(None)
    } else {
        let ha = v.avail_addr.wrapping_add((4 + (v.last_avail_idx % QUEUE_SIZE) as u64 * 2) as u64);
        if !guest_readable(ram, base, ha, 2) { None } else { Some(Some(le_value(ram, ha - base, 2) as u16)) }
    }
}

/// The device and RAM after request `head` completes: the status byte (if any)
/// written, a used-ring element {head, 0} appended, the used index bumped, the
/// request consumed and the interrupt raised. None when an address lies outside RAM.
/// RAM after the status byte of a request is written (unchanged when there is
/// none, or when it lies outside RAM).
pub open spec fn status_written(ram: Seq<u8>, base: u64, status: Option<(u64, u8)>) -> Seq<u8> {
    match status {
        Some((sa, st)) => if guest_readable(ram, base, sa, 1) { write_le(ram, sa - base, 1, st as nat) } else { ram },
        None => ram,
    }
}

pub open spec fn finish_spec(v: VirtioRegs, ram: Seq<u8>, base: u64, head: u16, status: Option<(u64, u8)>)
    -> Option<(VirtioRegs, Seq<u8>)>
{
    let ram1 = match status {
        None => Some(ram),
        Some((sa, st)) => if guest_readable(ram, base, sa, 1) { Some(write_le(ram, sa - base, 1, st as nat)) } else { None },
    };
    match ram1 {
        None => None,
        Some(ram1) => {
            let ia = v.used_addr.wrapping_add(2);
            if !guest_readable(ram1, base, ia, 2) {
                None
            } else {
                let used_idx = le_value(ram1, ia - base, 2) as u16;
                let elem = v.used_addr.wrapping_add((4 + (used_idx % QUEUE_SIZE) as u64 * 8) as u64);
                if !guest_readable(ram1, base, elem, 8) {
                    None
                } else {
                    let ram2 = write_le(ram1, elem - base, 4, head as nat);
                    let ram3 = write_le(ram2, elem + 4 - base, 4, 0);
                    let ram4 = write_le(ram3, ia - base, 2, used_idx.wrapping_add(1) as nat);
                    Some((VirtioRegs { last_avail_idx: v.last_avail_idx.wrapping_add(1), irq_status: 1, ..v }, ram4))
                }
            }
        },
    }
}

/// Whether the `n` bytes at `addr` fit in RAM (checked without overflow).
fn fits(n_ram: usize, base: u64, addr: u64, n: u64) -> (r: bool)
    ensures
        r == (addr + n <= u64::MAX && base <= addr && (addr - base) + n <= n_ram),
{
    addr <= u64::MAX - n && addr >= base && addr - base <= n_ram as u64 && (n_ram as u64) - (addr - base) >= n
}

impl VirtioBlk {
    /// Whether the queue is set up for a notification to be processed.
    pub fn queue_usable(&self) -> (r: bool)
        ensures
            r == (self.queue_ready != 0 && self.avail_addr != 0 && self.desc_addr != 0),
    {
        self.queue_ready != 0 && self.avail_addr != 0 && self.desc_addr != 0
    }

    /// The head of the next unprocessed request of the available ring, if any.
    pub fn pending_head(&self, ram: &[u8], base: u64) -> (r: Result<Option<u16>, GuestRamFault>)
        ensures
            match pending_head_spec(self@, ram@, base) {
                None => r is Err,
                Some(h) => r == Ok::<Option<u16>, GuestRamFault>(h),
            },
    {
        let n: usize = ram.len();
        let ia: u64 = self.avail_addr.wrapping_add(2);
        if !fits(n, base, ia, 2) {
            return Err(GuestRamFault { addr: ia });
        }
        let avail_idx: u16 = r16(ram, base, ia);
        if self.last_avail_idx == avail_idx {
            return Ok(None);
        }
        let slot: u64 = (self.last_avail_idx % QUEUE_SIZE) as u64;
        let ha: u64 = self.avail_addr.wrapping_add(4 + slot * 2);
        if !fits(n, base, ha, 2) {
            return Err(GuestRamFault { addr: ha });
        }
        Ok(Some(r16(ram, base, ha)))
    }

    /// Parse the request whose descriptor chain starts at `head`.
    pub fn parse_request(&self, ram: &[u8], base: u64, head: u16) -> (r: Result<Option<BlkRequest>, GuestRamFault>)
        ensures
            match request_spec(ram@, base, self.desc_addr, head) {
                None => r is Err,
                Some(None) => r matches Ok(None),
                Some(Some(q)) => r matches Ok(Some(x)) && x@ == q,
            },
    {
        let descs = self.read_chain(ram, base, head)?;
        let len: usize = descs.len();
        if len < 2 {
            return Ok(None);
        }
        let hdr: u64 = descs[0].addr;
        let n: usize = ram.len();
        if !fits(n, base, hdr, 16) {
            return Err(GuestRamFault { addr: hdr });
        }
        let req_type: u32 = r32(ram, base, hdr);
        let sector: u64 = r64(ram, base, hdr + 8);
        let mut data: Vec<Desc> = Vec::new();
        let mut i: usize = 1;
        while i < len - 1
            invariant
                1 <= i <= len - 1,
                len == descs@.len(),
                data@ == descs@.subrange(1, i as int),
            decreases len - 1 - i,
        {
            data.push(descs[i]);
            i = i + 1;
            assert(data@ =~= descs@.subrange(1, i as int));
        }
        Ok(Some(BlkRequest { req_type, sector, data, status_addr: descs[len - 1].addr }))
    }

    /// Complete request `head`: write its status byte (when the request had one),
    /// append {head, 0} to the used ring and raise the interrupt. On a fault the
    /// registers are unchanged and RAM holds at most the status byte.
    pub fn finish_request(&mut self, ram: &mut [u8], base: u64, head: u16, status: Option<(u64, u8)>)
        -> (r: Result<(), GuestRamFault>)
        ensures
            match finish_spec(old(self)@, old(ram)@, base, head, status) {
                None => r is Err && final(self)@ == old(self)@
                    && final(ram)@ == status_written(old(ram)@, base, status),
                Some((v, m)) => r is Ok && final(self)@ == v && final(ram)@ == m,
            },
            final(self).debug == old(self).debug,
    {
        let n: usize = ram.len();
        match status {
            None => {},
            Some((sa, st)) => {
                if !fits(n, base, sa, 1) {
                    return Err(GuestRamFault { addr: sa });
                }
                w8(ram, base, sa, st);
            },
        }
        let ia: u64 = self.used_addr.wrapping_add(2);
        if !fits(n, base, ia, 2) {
            return Err(GuestRamFault { addr: ia });
        }
        let used_idx: u16 = r16(ram, base, ia);
        let elem: u64 = self.used_addr.wrapping_add(4 + (used_idx % QUEUE_SIZE) as u64 * 8);
        if !fits(n, base, elem, 8) {
            return Err(GuestRamFault { addr: elem });
        }
        w32(ram, base, elem, head as u32);
        w32(ram, base, elem + 4, 0);
        w16(ram, base, ia, used_idx.wrapping_add(1));
        self.last_avail_idx = self.last_avail_idx.wrapping_add(1);
        self.irq_status = 1;
        Ok(())
    }
}

/// What the disk has to do for a request.
#[derive(Debug)]
pub enum DiskPlan {
    /// Nothing; the request fails (no disk, or an unknown request type).
    Fail,
    /// Nothing; the request succeeds (a flush: writes are synchronous).
    Flush,
    /// Seek to `byte_off`, then read into each RAM range (offset, length) in turn.
    /// `complete` is false when a data buffer lay outside RAM: the ranges stop
    /// before it and the request fails.
    Read { byte_off: u64, ranges: Vec<(usize, usize)>, complete: bool },
    /// Seek to `byte_off`, then write each RAM range in turn.
    Write { byte_off: u64, ranges: Vec<(usize, usize)>, complete: bool },
}

pub ghost enum DiskPlanView {
    Fail,
    Flush,
    Read { byte_off: u64, ranges: Seq<(usize, usize)>, complete: bool },
    Write { byte_off: u64, ranges: Seq<(usize, usize)>, complete: bool },
}

impl View for DiskPlan {
    type V = DiskPlanView;

    open spec fn view(&self) -> DiskPlanView {
        match self {
            DiskPlan::Fail => DiskPlanView::Fail,
            DiskPlan::Flush => DiskPlanView::Flush,
            DiskPlan::Read { byte_off, ranges, complete } =>
                DiskPlanView::Read { byte_off: *byte_off, ranges: ranges@, complete: *complete },
            DiskPlan::Write { byte_off, ranges, complete } =>
                DiskPlanView::Write { byte_off: *byte_off, ranges: ranges@, complete: *complete },
        }
    }
}

/// The RAM ranges of the data buffers that a transfer uses, in order: those the
/// device writes (`device_writes`) for a read, the others for a write. The list
/// stops at the first such buffer outside RAM, and the flag says whether none was.
pub open spec fn ranges_spec(data: Seq<Desc>, ram_len: nat, base: u64, device_writes: bool) -> (Seq<(usize, usize)>, bool)
    decreases data.len(),
{
    if data.len() == 0 {
        (seq![], true)
    } else {
        let d = data[0];
        let rest = ranges_spec(data.drop_first(), ram_len, base, device_writes);
        if (d.flags & DESC_F_WRITE != 0) != device_writes {
            rest
        } else if !(base <= d.addr && (d.addr - base) + d.len <= ram_len) {
            (seq![], false)
        } else {
            (seq![((d.addr - base) as usize, d.len as usize)] + rest.0, rest.1)
        }
    }
}

/// The disk work for request `q` on device `v` with `ram_len` bytes of RAM at `base`.
pub open spec fn plan_spec(v: VirtioRegs, q: BlkRequestView, ram_len: nat, base: u64) -> DiskPlanView {
    if !v.has_disk {
        DiskPlanView::Fail
    } else if q.req_type == T_IN {
        let (r, ok) = ranges_spec(q.data, ram_len, base, true);
        DiskPlanView::Read { byte_off: q.sector.wrapping_mul(SECTOR_SIZE), ranges: r, complete: ok }
    } else if q.req_type == T_OUT {
        let (r, ok) = ranges_spec(q.data, ram_len, base, false);
        DiskPlanView::Write { byte_off: q.sector.wrapping_mul(SECTOR_SIZE), ranges: r, complete: ok }
    } else if q.req_type == T_FLUSH {
        DiskPlanView::Flush
    } else {
        DiskPlanView::Fail
    }
}

/// The status byte of a request whose plan was `p` and whose disk I/O (seek and
/// transfers) succeeded when `io_ok`.
pub open spec fn status_spec(p: DiskPlanView, io_ok: bool) -> u8 {
    match p {
        DiskPlanView::Fail => S_IOERR,
        DiskPlanView::Flush => S_OK,
        DiskPlanView::Read { complete, .. } => if complete && io_ok { S_OK } else { S_IOERR },
        DiskPlanView::Write { complete, .. } => if complete && io_ok { S_OK } else { S_IOERR },
    }
}

/// The RAM ranges that a transfer uses (see `ranges_spec`).
fn transfer_ranges(data: &Vec<Desc>, ram_len: usize, base: u64, device_writes: bool) -> (r: (Vec<(usize, usize)>, bool))
    ensures
        (r.0@, r.1) == ranges_spec(data@, ram_len as nat, base, device_writes),
{
    let n: usize = data.len();
    let mut out: Vec<(usize, usize)> = Vec::new();
    let mut i: usize = 0;
    assert(data@.subrange(0, n as int) =~= data@);
    assert(seq![] + ranges_spec(data@, ram_len as nat, base, device_writes).0 =~= ranges_spec(data@, ram_len as nat, base, device_writes).0);
    while i < n
        invariant
            i <= n,
            n == data@.len(),
            ranges_spec(data@, ram_len as nat, base, device_writes) == (
                out@ + ranges_spec(data@.subrange(i as int, n as int), ram_len as nat, base, device_writes).0,
                ranges_spec(data@.subrange(i as int, n as int), ram_len as nat, base, device_writes).1),
        decreases n - i,
    {
        let d = data[i];
        let ghost tail = data@.subrange(i as int, n as int);
        assert(tail.drop_first() =~= data@.subrange(i + 1, n as int));
        assert(tail[0] == d);
        if ((d.flags & DESC_F_WRITE) != 0) == device_writes {
            let inside: bool = d.addr >= base && d.addr - base <= ram_len as u64 && (ram_len as u64) - (d.addr - base) >= d.len as u64;
            if !inside {
                assert(out@ + seq![] =~= out@);
                return (out, false);
            }
            let ghost before = out@;
            out.push(((d.addr - base) as usize, d.len as usize));
            assert forall|r: Seq<(usize, usize)>| #![auto] before + (seq![((d.addr - base) as usize, d.len as usize)] + r) == out@ + r by {
                assert(before + (seq![((d.addr - base) as usize, d.len as usize)] + r) =~= out@ + r);
            }
        }
        i = i + 1;
    }
    assert(data@.subrange(n as int, n as int) =~= Seq::<Desc>::empty());
    assert(out@ + seq![] =~= out@);
    (out, true)
}

impl VirtioBlk {
    /// The disk work for request `req` (see `plan_spec`).
    pub fn plan(&self, req: &BlkRequest, ram_len: usize, base: u64) -> (p: DiskPlan)
        ensures
            p@ == plan_spec(self@, req@, ram_len as nat, base),
    {
        if !self.has_disk {
            return DiskPlan::Fail;
        }
        if req.req_type == T_IN {
            let (ranges, complete) = transfer_ranges(&req.data, ram_len, base, true);
            DiskPlan::Read { byte_off: req.sector.wrapping_mul(SECTOR_SIZE), ranges, complete }
        } else if req.req_type == T_OUT {
            let (ranges, complete) = transfer_ranges(&req.data, ram_len, base, false);
            DiskPlan::Write { byte_off: req.sector.wrapping_mul(SECTOR_SIZE), ranges, complete }
        } else if req.req_type == T_FLUSH {
            DiskPlan::Flush
        } else {
            DiskPlan::Fail
        }
    }
}

/// The status byte of a request (see `status_spec`).
pub fn request_status(p: &DiskPlan, io_ok: bool) -> (st: u8)
    ensures
        st == status_spec(p@, io_ok),
{
    match p {
        DiskPlan::Fail => S_IOERR,
        DiskPlan::Flush => S_OK,
        DiskPlan::Read { complete, .. } => if *complete && io_ok { S_OK } else { S_IOERR },
        DiskPlan::Write { complete, .. } => if *complete && io_ok { S_OK } else { S_IOERR },
    }
}

/// What the queue run does next with the available ring.
pub enum QueueStep {
    /// Every request has been processed.
    Idle,
    /// Request `head` has fewer than two descriptors: it is completed with no status.
    Skip { head: u16 },
    /// Request `head`: the disk work of `plan` is done, then the request completed.
    Io { head: u16, req: BlkRequest, plan: DiskPlan },
}

/// The request that `step` completes.
pub open spec fn step_head(step: &QueueStep) -> u16 {
    match step {
        QueueStep::Idle => 0,
        QueueStep::Skip { head } => *head,
        QueueStep::Io { head, .. } => *head,
    }
}

/// The status byte that completing `step` writes, and where: none for a skipped
/// request, else that of its plan with the disk I/O successful when `io_ok`.
pub open spec fn step_status(step: &QueueStep, io_ok: bool) -> Option<(u64, u8)> {
    match step {
        QueueStep::Io { req, plan, .. } => Some((req.status_addr, status_spec(plan@, io_ok))),
        _ => None,
    }
}

impl VirtioBlk {
    /// Find, parse and plan the next request of the available ring (a fault when
    /// the ring, a descriptor or a request header lies outside RAM).
    pub fn next_step(&self, ram: &[u8], base: u64) -> (r: Result<QueueStep, GuestRamFault>)
        ensures
            match pending_head_spec(self@, ram@, base) {
                None => r is Err,
                Some(None) => r matches Ok(QueueStep::Idle),
                Some(Some(h)) => match request_spec(ram@, base, self.desc_addr, h) {
                    None => r is Err,
                    Some(None) => r matches Ok(QueueStep::Skip { head }) && head == h,
                    Some(Some(q)) => r matches Ok(QueueStep::Io { head, req, plan }) && head == h && req@ == q
                        && plan@ == plan_spec(self@, q, ram@.len(), base),
                },
            },
    {
        let head = match self.pending_head(ram, base)? {
            None => return Ok(QueueStep::Idle),
            Some(h) => h,
        };
        match self.parse_request(ram, base, head)? {
            None => Ok(QueueStep::Skip { head }),
            Some(req) => {
                let plan = self.plan(&req, ram.len(), base);
                Ok(QueueStep::Io { head, req, plan })
            },
        }
    }

    /// Complete the request of `step` after its disk work (successful when
    /// `io_ok`): its status byte and the used ring are written (see `finish_request`).
    pub fn complete_step(&mut self, ram: &mut [u8], base: u64, step: &QueueStep, io_ok: bool)
        -> (r: Result<(), GuestRamFault>)
        requires
            !(step is Idle),
        ensures
            match finish_spec(old(self)@, old(ram)@, base, step_head(step), step_status(step, io_ok)) {
                None => r is Err && final(self)@ == old(self)@
                    && final(ram)@ == status_written(old(ram)@, base, step_status(step, io_ok)),
                Some((v, m)) => r is Ok && final(self)@ == v && final(ram)@ == m,
            },
            final(self).debug == old(self).debug,
    {
        match step {
            QueueStep::Idle => Ok(()),
            QueueStep::Skip { head } => self.finish_request(ram, base, *head, None),
            QueueStep::Io { head, req, plan } => {
                let st = request_status(plan, io_ok);
                self.finish_request(ram, base, *head, Some((req.status_addr, st)))
            },
        }
    }
}

} // verus!
