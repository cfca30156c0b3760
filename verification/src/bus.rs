use vstd::prelude::*;
use vstd::arithmetic::div_mod::{lemma_breakdown, lemma_div_denominator};
use crate::clint::Clint;
use crate::plic::{Plic, PlicState, plic_load_spec, store_spec as plic_store_spec};
use crate::uart::{Uart16550, UartState, uart_load_spec, uart_store_spec};
use crate::virtio_blk::{VirtioBlk, VirtioRegs, virtio_load_spec, virtio_store_spec};

verus! {

/// `256^n`.
pub open spec fn pow256(n: nat) -> nat
    decreases n,
{
    if n == 0 { 1 } else { 256 * pow256((n - 1) as nat) }
}

/// The value of the `n` bytes of `s` starting at `off`, read little-endian.
pub open spec fn le_value(s: Seq<u8>, off: int, n: nat) -> nat
    decreases n,
{
    if n == 0 { 0 } else { s[off] as nat + 256 * le_value(s, off + 1, (n - 1) as nat) }
}

/// Byte number `k` (0 = least significant) of `v`.
pub open spec fn byte_of(v: nat, k: nat) -> u8 {
    ((v / pow256(k)) % 256) as u8
}

/// The widths an access may have.
pub open spec fn valid_width(width: usize) -> bool {
    width == 1 || width == 2 || width == 4 || width == 8
}

/// `s` after writing the `width` little-endian bytes of `value` at `off`.
pub open spec fn write_le(s: Seq<u8>, off: int, width: nat, value: nat) -> Seq<u8> {
    Seq::new(s.len(), |j: int| if off <= j < off + width { byte_of(value, (j - off) as nat) } else { s[j] })
}

/// Whether the `width` bytes at physical `addr` lie in a RAM window `mem` at `base`.
pub open spec fn mem_in_range(mem: Seq<u8>, base: u64, addr: u64, width: nat) -> bool {
    base <= addr && (addr - base) + width <= mem.len()
}

/// The little-endian value of the `width` bytes at physical `addr` of a RAM window.
pub open spec fn mem_read(mem: Seq<u8>, base: u64, addr: u64, width: nat) -> nat {
    le_value(mem, addr - base, width)
}

/// A RAM window after a store of `width` bytes of `value` at `addr`; a store
/// outside the window leaves it unchanged.
pub open spec fn mem_write(mem: Seq<u8>, base: u64, addr: u64, width: nat, value: nat) -> Seq<u8> {
    if mem_in_range(mem, base, addr, width) { write_le(mem, addr - base, width, value) } else { mem }
}

/// An access to RAM outside the mapped range.
#[derive(Debug, Clone, Copy, PartialEq, Eq, Structural)]
pub struct BusFault {
    pub addr: u64,
    pub width: usize,
}

/// Where the MMIO devices sit.
pub const CLINT_BASE: u64 = 0x0200_0000;
pub const PLIC_BASE: u64 = 0x0C00_0000;
pub const UART_BASE: u64 = 0x1000_0000;
pub const VIRTIO_BASE: u64 = 0x1000_1000;

/// The devices as the specifications see them, with the UART output not yet
/// written to the host and whether the disk's queue was notified.
pub ghost struct DevState {
    pub clint: Clint,
    pub uart: UartState,
    pub plic: PlicState,
    pub virtio: VirtioRegs,
    pub tx: Seq<u8>,
    pub notify: bool,
}

/// The devices after a reset: no UART input or output pending, nothing
/// pending or claimed at the PLIC, the disk absent and not notified.
pub open spec fn reset_devs() -> DevState {
    DevState {
        clint: Clint::reset_spec(),
        uart: UartState { ier: 0, rx: seq![], dsr_state: 0, stdin_ready: false },
        plic: Plic::new_spec(),
        virtio: VirtioBlk::new_spec(None),
        tx: seq![],
        notify: false,
    }
}

/// The device at physical `addr`: 1 CLINT, 2 PLIC, 3 UART, 4 virtio disk, 0 none (RAM).
pub open spec fn region(addr: u64) -> int {
    if CLINT_BASE <= addr <= 0x0200_FFFF { 1 }
    else if PLIC_BASE <= addr <= 0x0FFF_FFFF { 2 }
    else if UART_BASE <= addr <= 0x1000_00FF { 3 }
    else if VIRTIO_BASE <= addr <= 0x1000_1FFF { 4 }
    else { 0 }
}

/// A load from a device register: the value and the devices after it.
pub open spec fn dev_load_spec(d: DevState, addr: u64) -> (u64, DevState) {
    let r = region(addr);
    if r == 1 {
        (d.clint.load_spec(addr), d)
    } else if r == 2 {
        let (v, p) = plic_load_spec(d.plic, addr);
        (v, DevState { plic: p, ..d })
    } else if r == 3 {
        let (v, u) = uart_load_spec(d.uart, addr);
        (v, DevState { uart: u, ..d })
    } else {
        (virtio_load_spec(d.virtio, (addr - VIRTIO_BASE) as u64), d)
    }
}

/// The devices after a store to a device register: UART output is queued for
/// the host, and a queue notification is remembered.
pub open spec fn dev_store_spec(d: DevState, addr: u64, val: u64) -> DevState {
    let r = region(addr);
    if r == 1 {
        DevState { clint: d.clint.store_spec(addr, val), ..d }
    } else if r == 2 {
        DevState { plic: plic_store_spec(d.plic, addr, val), ..d }
    } else if r == 3 {
        let (u, out) = uart_store_spec(d.uart, addr, val);
        DevState { uart: u, tx: d.tx + out, ..d }
    } else {
        let (v, n) = virtio_store_spec(d.virtio, (addr - VIRTIO_BASE) as u64, val);
        DevState { virtio: v, notify: d.notify || n, ..d }
    }
}

/// A load of `width` bytes at physical `addr` through the bus: the value (None
/// when it hits neither a device nor RAM) and the devices after it.
pub open spec fn bus_load_spec(mem: Seq<u8>, base: u64, d: DevState, addr: u64, width: nat) -> (Option<u64>, DevState) {
    if region(addr) != 0 {
        let (v, d2) = dev_load_spec(d, addr);
        (Some(v), d2)
    } else if mem_in_range(mem, base, addr, width) {
        (Some(mem_read(mem, base, addr, width) as u64), d)
    } else {
        (None, d)
    }
}

/// A store of the low `width` bytes of `value` at physical `addr` through the
/// bus: RAM and devices after it, or None when it hits neither.
pub open spec fn bus_store_spec(mem: Seq<u8>, base: u64, d: DevState, addr: u64, width: nat, value: u64)
    -> Option<(Seq<u8>, DevState)>
{
    if region(addr) != 0 {
        Some((mem, dev_store_spec(d, addr, value)))
    } else if mem_in_range(mem, base, addr, width) {
        Some((mem_write(mem, base, addr, width, value as nat), d))
    } else {
        None
    }
}

/// Physical address space: a RAM window of `ram.len()` bytes at `ram_base`, and
/// the MMIO devices.
pub struct Bus {
    ram: Vec<u8>,
    pub ram_base: u64,
    pub clint: Clint,
    pub uart: Uart16550,
    pub plic: Plic,
    pub virtio_blk: VirtioBlk,
    /// Bytes the UART transmitted that have not been written to the host yet.
    pub tx_out: Vec<u8>,
    /// Set by a write to the disk's QueueNotify register; the queue is then
    /// processed by the caller.
    pub virtio_notify: bool,
}

impl View for Bus {
    type V = Seq<u8>;

    closed spec fn view(&self) -> Seq<u8> {
        self.ram@
    }
}

pub proof fn lemma_pow256_facts()
    ensures
        pow256(0) == 1,
        pow256(1) == 0x100,
        pow256(2) == 0x1_0000,
        pow256(3) == 0x100_0000,
        pow256(4) == 0x1_0000_0000,
        pow256(5) == 0x100_0000_0000,
        pow256(6) == 0x1_0000_0000_0000,
        pow256(7) == 0x100_0000_0000_0000,
        pow256(8) == 0x1_0000_0000_0000_0000,
{
    reveal_with_fuel(pow256, 9);
}

pub proof fn lemma_le_value_bound(s: Seq<u8>, off: int, n: nat)
    ensures
        le_value(s, off, n) < pow256(n),
    decreases n,
{
    if n > 0 {
        lemma_le_value_bound(s, off + 1, (n - 1) as nat);
    }
}

proof fn lemma_le_value_of_bytes(s: Seq<u8>, off: int, v: nat, k: nat, n: nat)
    requires
        k <= n,
        forall|j: int| off + k <= j < off + n ==> #[trigger] s[j] == byte_of(v, (j - off) as nat),
    ensures
        le_value(s, off + k, (n - k) as nat) == (v / pow256(k)) % pow256((n - k) as nat),
    decreases n - k,
{
    if k < n {
        lemma_le_value_of_bytes(s, off, v, k + 1, n);
        lemma_pow256_pos(k);
        let x = v / pow256(k);
        let m = (n - k - 1) as nat;
        assert(pow256(k + 1) == pow256(k) * 256);
        lemma_div_denominator(v as int, pow256(k) as int, 256);
        assert(x / 256 == v / pow256(k + 1));
        lemma_pow256_pos(m);
        lemma_breakdown(x as int, 256, pow256(m) as int);
        assert(pow256((n - k) as nat) == 256 * pow256(m));
        assert(s[off + k] == byte_of(v, k));
        assert(off + k + 1 == off + (k + 1));
    }
}

/// Reading back what was written gives the written value, cut to the access width.
pub proof fn lemma_read_after_write(s: Seq<u8>, off: int, width: nat, value: nat)
    requires
        0 <= off,
        off + width <= s.len(),
    ensures
        le_value(write_le(s, off, width, value), off, width) == value % pow256(width),
{
    let t = write_le(s, off, width, value);
    assert forall|j: int| off + 0 <= j < off + width implies #[trigger] t[j] == byte_of(value, (j - off) as nat) by {}
    lemma_le_value_of_bytes(t, off, value, 0, width);
    assert(pow256(0) == 1);
    assert(value / 1 == value);
}

proof fn lemma_le_value_frame(s: Seq<u8>, t: Seq<u8>, off: int, n: nat)
    requires
        forall|j: int| off <= j < off + n ==> #[trigger] s[j] == t[j],
    ensures
        le_value(s, off, n) == le_value(t, off, n),
    decreases n,
{
    if n > 0 {
        lemma_le_value_frame(s, t, off + 1, (n - 1) as nat);
    }
}

/// A write leaves every byte range that it does not overlap unchanged.
pub proof fn lemma_write_disjoint(s: Seq<u8>, off: int, width: nat, value: nat, off2: int, width2: nat)
    requires
        0 <= off2,
        off2 + width2 <= s.len(),
        off + width <= off2 || off2 + width2 <= off,
    ensures
        le_value(write_le(s, off, width, value), off2, width2) == le_value(s, off2, width2),
{
    let t = write_le(s, off, width, value);
    assert forall|j: int| off2 <= j < off2 + width2 implies #[trigger] t[j] == s[j] by {}
    lemma_le_value_frame(t, s, off2, width2);
}

impl Bus {
    /// The physical address of the first RAM byte.
    pub closed spec fn base(&self) -> u64 {
        self.ram_base
    }

    /// Whether the `width` bytes at `addr` lie inside RAM.
    pub open spec fn in_ram(&self, addr: u64, width: nat) -> bool {
        mem_in_range(self@, self.base(), addr, width)
    }

    /// RAM offset of `addr`.
    pub open spec fn off(&self, addr: u64) -> int {
        addr - self.base()
    }

    /// The little-endian value of the `width` bytes at `addr`.
    pub open spec fn read_spec(&self, addr: u64, width: nat) -> nat {
        mem_read(self@, self.base(), addr, width)
    }

    /// The devices as the specifications see them.
    pub closed spec fn devs(&self) -> DevState {
        DevState {
            clint: self.clint,
            uart: self.uart@,
            plic: self.plic@,
            virtio: self.virtio_blk@,
            tx: self.tx_out@,
            notify: self.virtio_notify,
        }
    }

    /// `size` bytes of zeroed RAM at `ram_base`, with the devices in their reset state.
    pub fn new(size: usize, ram_base: u64) -> (b: Self)
        ensures
            b.base() == ram_base,
            b@ == Seq::new(size as nat, |i: int| 0u8),
            b.devs() == reset_devs(),
    {
        let ram: Vec<u8> = vec![0u8; size];
        assert(ram@ =~= Seq::new(size as nat, |i: int| 0u8));
        Bus {
            ram,
            ram_base,
            clint: Clint::new(),
            uart: Uart16550::new(),
            plic: Plic::new(),
            virtio_blk: VirtioBlk::new(None),
            tx_out: Vec::new(),
            virtio_notify: false,
        }
    }

    /// Load `width` bytes (1/2/4/8) at physical `addr`: a device register, or
    /// RAM zero-extended to u64.
    pub fn load(&mut self, addr: u64, width: usize) -> (r: Result<u64, BusFault>)
        requires
            valid_width(width),
        ensures
            match bus_load_spec(old(self)@, old(self).base(), old(self).devs(), addr, width as nat).0 {
                Some(v) => r == Ok::<u64, BusFault>(v),
                None => r == Err::<u64, BusFault>(BusFault { addr, width }),
            },
            final(self).devs() == bus_load_spec(old(self)@, old(self).base(), old(self).devs(), addr, width as nat).1,
            final(self)@ == old(self)@,
            final(self).base() == old(self).base(),
    {
        if CLINT_BASE <= addr && addr <= 0x0200_FFFF {
            Ok(self.clint.load(addr, width))
        } else if PLIC_BASE <= addr && addr <= 0x0FFF_FFFF {
            Ok(self.plic.load(addr, width))
        } else if UART_BASE <= addr && addr <= 0x1000_00FF {
            Ok(self.uart.load(addr, width))
        } else if VIRTIO_BASE <= addr && addr <= 0x1000_1FFF {
            Ok(self.virtio_blk.load(addr - VIRTIO_BASE, width))
        } else {
            let r = self.load_ram(addr, width);
            proof {
                if r is Ok {
                    lemma_pow256_facts();
                    lemma_le_value_bound(self@, addr - self.base(), width as nat);
                    if width < 8 {
                        lemma_pow256_le8(width as nat);
                    }
                }
            }
            r
        }
    }

    /// Store the low `width` bytes (1/2/4/8) of `value` at physical `addr`: a
    /// device register, or RAM little-endian.
    pub fn store(&mut self, addr: u64, width: usize, value: u64) -> (r: Result<(), BusFault>)
        requires
            valid_width(width),
        ensures
            match bus_store_spec(old(self)@, old(self).base(), old(self).devs(), addr, width as nat, value) {
                Some((m, d)) => r is Ok && final(self)@ == m && final(self).devs() == d,
                None => r == Err::<(), BusFault>(BusFault { addr, width }) && final(self)@ == old(self)@
                    && final(self).devs() == old(self).devs(),
            },
            final(self).base() == old(self).base(),
    {
        if CLINT_BASE <= addr && addr <= 0x0200_FFFF {
            self.clint.store(addr, width, value);
            Ok(())
        } else if PLIC_BASE <= addr && addr <= 0x0FFF_FFFF {
            self.plic.store(addr, width, value);
            Ok(())
        } else if UART_BASE <= addr && addr <= 0x1000_00FF {
            let mut out = self.uart.store(addr, width, value);
            self.tx_out.append(&mut out);
            Ok(())
        } else if VIRTIO_BASE <= addr && addr <= 0x1000_1FFF {
            let n = self.virtio_blk.store(addr - VIRTIO_BASE, width, value);
            self.virtio_notify = self.virtio_notify || n;
            Ok(())
        } else {
            self.store_ram(addr, width, value)
        }
    }

    pub fn ram_mut(&mut self) -> (r: &mut Vec<u8>)
        ensures
            r@ == old(self)@,
            final(self)@ == final(r)@,
            final(self).base() == old(self).base(),
            final(self).devs() == old(self).devs(),
    {
        &mut self.ram
    }

    fn offset(&self, addr: u64, width: usize) -> (r: Result<usize, BusFault>)
        requires
            valid_width(width),
        ensures
            r is Ok <==> self.in_ram(addr, width as nat),
            r matches Ok(o) ==> o == self.off(addr),
            r matches Err(f) ==> f == (BusFault { addr, width }),
    {
        if addr < self.ram_base {
            return Err(BusFault { addr, width });
        }
        let off: u64 = addr - self.ram_base;
        let len: usize = self.ram.len();
        if off > len as u64 || (len as u64) - off < width as u64 {
            return Err(BusFault { addr, width });
        }
        Ok(off as usize)
    }

    /// Copy `len` bytes of `src` starting at `start` into RAM at offset `off`.
    pub fn copy_in(&mut self, off: usize, src: &[u8], start: usize, len: usize)
        requires
            off + len <= old(self)@.len(),
            start + len <= src@.len(),
        ensures
            final(self).base() == old(self).base(),
            final(self).devs() == old(self).devs(),
            final(self)@ == old(self)@.subrange(0, off as int) + src@.subrange(start as int, start + len)
                + old(self)@.subrange(off + len, old(self)@.len() as int),
    {
        let n: usize = self.ram.len();
        let m: usize = src.len();
        let mut i: usize = 0;
        while i < len
            invariant
                i <= len,
                n == old(self)@.len(),
                m == src@.len(),
                off + len <= old(self)@.len(),
                start + len <= src@.len(),
                self.ram_base == old(self).ram_base,
                self.ram@.len() == old(self)@.len(),
                self.devs() == old(self).devs(),
                forall|j: int| 0 <= j < self.ram@.len() ==> #[trigger] self.ram@[j] == (
                    if off <= j < off + i { src@[start + (j - off)] } else { old(self)@[j] }),
            decreases len - i,
        {
            self.ram.set(off + i, src[start + i]);
            i = i + 1;
        }
        assert(self.ram@ =~= old(self)@.subrange(0, off as int) + src@.subrange(start as int, start + len)
            + old(self)@.subrange(off + len, old(self)@.len() as int));
    }

    /// Load `width` bytes (1/2/4/8) of RAM at `addr`, zero-extended to u64.
    pub fn load_ram(&self, addr: u64, width: usize) -> (r: Result<u64, BusFault>)
        requires
            valid_width(width),
        ensures
            r is Ok <==> self.in_ram(addr, width as nat),
            r matches Ok(v) ==> v == self.read_spec(addr, width as nat),
            r matches Err(f) ==> f == (BusFault { addr, width }),
    {
        let off = self.offset(addr, width)?;
        let len: usize = self.ram.len();
        let mut v: u64 = 0;
        let mut i: usize = width;
        proof {
            lemma_pow256_facts();
        }
        while i > 0
            invariant
                valid_width(width),
                i <= width,
                off + width <= len,
                len == self.ram@.len(),
                off == self.off(addr),
                v == le_value(self.ram@, off + i, (width - i) as nat),
                pow256(8) == 0x1_0000_0000_0000_0000,
            decreases i,
        {
            proof {
                lemma_le_value_bound(self.ram@, off + i, (width - i) as nat);
                lemma_pow256_facts();
            }
            assert(v < pow256(7)) by {
                if width - i == 7 {} else if width - i < 7 {
                    lemma_pow256_mono((width - i) as nat, 7);
                }
            }
            i = i - 1;
            v = v * 256 + self.ram[off + i] as u64;
            assert(off + i + 1 == off + (i + 1));
        }
        Ok(v)
    }

    /// Store the low `width` bytes (1/2/4/8) of `value` to RAM at `addr`, little-endian.
    pub fn store_ram(&mut self, addr: u64, width: usize, value: u64) -> (r: Result<(), BusFault>)
        requires
            valid_width(width),
        ensures
            r is Ok <==> old(self).in_ram(addr, width as nat),
            r matches Err(f) ==> f == (BusFault { addr, width }),
            final(self).base() == old(self).base(),
            final(self).devs() == old(self).devs(),
            final(self)@ == mem_write(old(self)@, old(self).base(), addr, width as nat, value as nat),
    {
        let off = self.offset(addr, width)?;
        let ghost s0 = self.ram@;
        let len: usize = self.ram.len();
        proof {
            lemma_pow256_facts();
        }
        let mut cur: u64 = value;
        let mut i: usize = 0;
        while i < width
            invariant
                valid_width(width),
                i <= width,
                off + width <= len,
                len == s0.len(),
                self.ram@.len() == s0.len(),
                self.ram_base == old(self).ram_base,
                s0 == old(self).ram@,
                self.devs() == old(self).devs(),
                off == old(self).off(addr),
                cur == value as nat / pow256(i as nat),
                forall|j: int| 0 <= j < s0.len() ==> #[trigger] self.ram@[j] == (
                    if off <= j < off + i { byte_of(value as nat, (j - off) as nat) } else { s0[j] }),
            decreases width - i,
        {
            let b: u8 = (cur % 256) as u8;
            self.ram.set(off + i, b);
            proof {
                assert(pow256((i + 1) as nat) == pow256(i as nat) * 256);
                lemma_pow256_pos(i as nat);
                lemma_div_denominator(value as int, pow256(i as nat) as int, 256);
            }
            cur = cur / 256;
            i = i + 1;
        }
        assert(self.ram@ =~= write_le(s0, off as int, width as nat, value as nat));
        Ok(())
    }
}

/// A load after a store at the same physical address and width returns the
/// stored value cut to that width.
pub proof fn lemma_load_after_store(mem: Seq<u8>, base: u64, addr: u64, width: nat, value: nat)
    requires
        mem_in_range(mem, base, addr, width),
    ensures
        mem_read(mem_write(mem, base, addr, width, value), base, addr, width) == value % pow256(width),
{
    lemma_read_after_write(mem, addr - base, width, value);
}

/// Through the bus, a load from RAM after a store to the same RAM address and
/// width returns the stored value cut to that width; the devices are untouched.
pub proof fn lemma_bus_load_after_store(mem: Seq<u8>, base: u64, d: DevState, addr: u64, width: nat, value: u64)
    requires
        region(addr) == 0,
        mem_in_range(mem, base, addr, width),
        width <= 8,
    ensures
        bus_store_spec(mem, base, d, addr, width, value) matches Some((m2, d2)) && d2 == d
            && bus_load_spec(m2, base, d2, addr, width) == (Some((value as nat % pow256(width)) as u64), d),
{
    lemma_load_after_store(mem, base, addr, width, value as nat);
}

/// A store to a device register never changes RAM, and a store to RAM never
/// changes a device.
pub proof fn lemma_bus_store_separates(mem: Seq<u8>, base: u64, d: DevState, addr: u64, width: nat, value: u64)
    ensures
        bus_store_spec(mem, base, d, addr, width, value) matches Some((m2, d2)) ==>
            (region(addr) != 0 ==> m2 == mem) && (region(addr) == 0 ==> d2 == d),
{
}

/// A store leaves every access that it does not overlap unchanged.
pub proof fn lemma_store_elsewhere(mem: Seq<u8>, base: u64, addr: u64, width: nat, value: nat, addr2: u64, width2: nat)
    requires
        mem_in_range(mem, base, addr2, width2),
        addr + width <= addr2 || addr2 + width2 <= addr,
    ensures
        mem_read(mem_write(mem, base, addr, width, value), base, addr2, width2) == mem_read(mem, base, addr2, width2),
{
    if mem_in_range(mem, base, addr, width) {
        lemma_write_disjoint(mem, addr - base, width, value, addr2 - base, width2);
    }
}

/// A store never changes the size of RAM.
pub proof fn lemma_store_keeps_size(mem: Seq<u8>, base: u64, addr: u64, width: nat, value: nat)
    ensures
        mem_write(mem, base, addr, width, value).len() == mem.len(),
{
}

pub proof fn lemma_pow256_pos(n: nat)
    ensures
        pow256(n) > 0,
    decreases n,
{
    if n > 0 {
        lemma_pow256_pos((n - 1) as nat);
    }
}

pub proof fn lemma_pow256_le8(n: nat)
    requires
        n <= 8,
    ensures
        pow256(n) <= pow256(8),
{
    lemma_pow256_mono(n, 8);
}

proof fn lemma_pow256_mono(a: nat, b: nat)
    requires
        a <= b,
    ensures
        pow256(a) <= pow256(b),
    decreases b - a,
{
    if a < b {
        lemma_pow256_mono(a, (b - 1) as nat);
    }
}

} // verus!
