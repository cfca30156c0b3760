use vstd::prelude::*;

verus! {

/// Bits of `mstatus` that S-mode sees through `sstatus`:
/// SD, UXL, MXR, SUM, XS, FS, SPP, UBE, SPIE, SIE.
pub const SSTATUS_MASK: u64 = 0x8000_0003_000D_E162;

/// Bits of `mie`/`mip` that S-mode sees through `sie`/`sip`: SSI, STI, SEI.
pub const S_INT_MASK: u64 = 0x222;

/// UXL = SXL = 2 (64-bit), as `sstatus` reports them.
pub const XLEN_BITS: u64 = 0x0000_000A_0000_0000;

/// `mstatus` bits MIE[3], MPIE[7] and MPP[12:11].
pub const M_TRAP_BITS: u64 = 0x1888;

/// `mstatus` bits SIE[1], SPIE[5] and SPP[8].
pub const S_TRAP_BITS: u64 = 0x122;

/// `misa`: RV64 with the A, I and M extensions.
pub const MISA_VALUE: u64 = 0x8000_0000_0000_1101;

/// Bit `n` of `v`.
pub open spec fn bit(v: u64, n: u64) -> u64 {
    (v >> n) & 1
}

/// The machine- and supervisor-mode control and status registers.
#[derive(Clone, Copy, Debug, PartialEq, Eq, Structural)]
pub struct Csr {
    pub mstatus: u64,
    pub misa: u64,
    pub medeleg: u64,
    pub mideleg: u64,
    pub mie: u64,
    pub mtvec: u64,
    pub mscratch: u64,
    pub mepc: u64,
    pub mcause: u64,
    pub mtval: u64,
    pub mip: u64,
    pub stvec: u64,
    pub sscratch: u64,
    pub sepc: u64,
    pub scause: u64,
    pub stval: u64,
    pub satp: u64,
    /// Sstc supervisor timer compare; all ones until the kernel writes it.
    pub stimecmp: u64,
}

impl Csr {
    /// What a CSR read at `addr` returns. Unknown and read-only-zero CSRs read 0.
    pub open spec fn read_spec(&self, addr: u16) -> u64 {
        if addr == 0x300 { self.mstatus }
        else if addr == 0x301 { self.misa }
        else if addr == 0x302 { self.medeleg }
        else if addr == 0x303 { self.mideleg }
        else if addr == 0x304 { self.mie }
        else if addr == 0x305 { self.mtvec }
        else if addr == 0x340 { self.mscratch }
        else if addr == 0x341 { self.mepc }
        else if addr == 0x342 { self.mcause }
        else if addr == 0x343 { self.mtval }
        else if addr == 0x344 { self.mip }
        else if addr == 0x100 { (self.mstatus | XLEN_BITS) & SSTATUS_MASK }
        else if addr == 0x104 { self.mie & S_INT_MASK }
        else if addr == 0x105 { self.stvec }
        else if addr == 0x140 { self.sscratch }
        else if addr == 0x141 { self.sepc }
        else if addr == 0x142 { self.scause }
        else if addr == 0x143 { self.stval }
        else if addr == 0x144 { self.mip & S_INT_MASK }
        else if addr == 0x180 { self.satp }
        else if addr == 0x14D { self.stimecmp }
        else { 0 }
    }

    /// The register file after a CSR write of `val` at `addr`. Writes to read-only
    /// and unknown CSRs are ignored.
    pub open spec fn write_spec(self, addr: u16, val: u64) -> Csr {
        if addr == 0x300 { Csr { mstatus: val, ..self } }
        else if addr == 0x302 { Csr { medeleg: val, ..self } }
        else if addr == 0x303 { Csr { mideleg: val, ..self } }
        else if addr == 0x304 { Csr { mie: val, ..self } }
        else if addr == 0x305 { Csr { mtvec: val, ..self } }
        else if addr == 0x340 { Csr { mscratch: val, ..self } }
        else if addr == 0x341 { Csr { mepc: val & !1u64, ..self } }
        else if addr == 0x342 { Csr { mcause: val, ..self } }
        else if addr == 0x343 { Csr { mtval: val, ..self } }
        else if addr == 0x344 { Csr { mip: val, ..self } }
        else if addr == 0x100 {
            Csr { mstatus: (self.mstatus & !SSTATUS_MASK) | (val & SSTATUS_MASK), ..self }
        }
        else if addr == 0x104 { Csr { mie: (self.mie & !S_INT_MASK) | (val & S_INT_MASK), ..self } }
        else if addr == 0x105 { Csr { stvec: val, ..self } }
        else if addr == 0x140 { Csr { sscratch: val, ..self } }
        else if addr == 0x141 { Csr { sepc: val & !1u64, ..self } }
        else if addr == 0x142 { Csr { scause: val, ..self } }
        else if addr == 0x143 { Csr { stval: val, ..self } }
        else if addr == 0x144 { Csr { mip: (self.mip & !S_INT_MASK) | (val & S_INT_MASK), ..self } }
        else if addr == 0x180 { Csr { satp: val, ..self } }
        else if addr == 0x14D { Csr { stimecmp: val, ..self } }
        else { self }
    }

    /// The reset state: everything zero but `misa` and `stimecmp` (all ones).
    pub open spec fn reset_spec() -> Csr {
        Csr {
            mstatus: 0,
            misa: MISA_VALUE,
            medeleg: 0,
            mideleg: 0,
            mie: 0,
            mtvec: 0,
            mscratch: 0,
            mepc: 0,
            mcause: 0,
            mtval: 0,
            mip: 0,
            stvec: 0,
            sscratch: 0,
            sepc: 0,
            scause: 0,
            stval: 0,
            satp: 0,
            stimecmp: u64::MAX,
        }
    }

    pub fn new() -> (c: Self)
        ensures
            c == Csr::reset_spec(),
    {
        Csr {
            mstatus: 0,
            misa: MISA_VALUE,
            medeleg: 0,
            mideleg: 0,
            mie: 0,
            mtvec: 0,
            mscratch: 0,
            mepc: 0,
            mcause: 0,
            mtval: 0,
            mip: 0,
            stvec: 0,
            sscratch: 0,
            sepc: 0,
            scause: 0,
            stval: 0,
            satp: 0,
            stimecmp: u64::MAX,
        }
    }

    pub fn read(&self, addr: u16) -> (r: u64)
        ensures
            r == self.read_spec(addr),
    {
        match addr {
            0x300 => self.mstatus,
            0x301 => self.misa,
            0x302 => self.medeleg,
            0x303 => self.mideleg,
            0x304 => self.mie,
            0x305 => self.mtvec,
            0x340 => self.mscratch,
            0x341 => self.mepc,
            0x342 => self.mcause,
            0x343 => self.mtval,
            0x344 => self.mip,
            0x100 => (self.mstatus | XLEN_BITS) & SSTATUS_MASK,
            0x104 => self.mie & S_INT_MASK,
            0x105 => self.stvec,
            0x106 => 0,  // scounteren
            0x140 => self.sscratch,
            0x141 => self.sepc,
            0x142 => self.scause,
            0x143 => self.stval,
            0x144 => self.mip & S_INT_MASK,
            0x180 => self.satp,
            0x14D => self.stimecmp,
            // mvendorid, marchid, mimpid, mhartid: hardwired zero
            0xf11..=0xf14 => 0,
            _ => 0,
        }
    }

    pub fn write(&mut self, addr: u16, val: u64)
        ensures
            *final(self) == old(self).write_spec(addr, val),
    {
        match addr {
            0x300 => self.mstatus = val,
            0x301 => {},  // misa: read-only
            0x302 => self.medeleg = val,
            0x303 => self.mideleg = val,
            0x304 => self.mie = val,
            0x305 => self.mtvec = val,
            0x340 => self.mscratch = val,
            0x341 => self.mepc = val & !1u64,
            0x342 => self.mcause = val,
            0x343 => self.mtval = val,
            0x344 => self.mip = val,
            0x100 => self.mstatus = (self.mstatus & !SSTATUS_MASK) | (val & SSTATUS_MASK),
            0x104 => self.mie = (self.mie & !S_INT_MASK) | (val & S_INT_MASK),
            0x105 => self.stvec = val,
            0x140 => self.sscratch = val,
            0x141 => self.sepc = val & !1u64,
            0x142 => self.scause = val,
            0x143 => self.stval = val,
            0x144 => self.mip = (self.mip & !S_INT_MASK) | (val & S_INT_MASK),
            0x180 => self.satp = val,
            0x14D => self.stimecmp = val,
            _ => {},  // read-only or unimplemented: ignored
        }
    }

    /// `mstatus.MIE`.
    pub fn mie_bit(&self) -> (r: u64)
        ensures
            r == bit(self.mstatus, 3),
    {
        (self.mstatus >> 3) & 1
    }

    /// `mstatus` on a trap into M-mode from privilege `prev`: MPIE <- MIE, MIE <- 0, MPP <- prev.
    pub open spec fn trap_entry_spec(mstatus: u64, prev: u64) -> u64 {
        (mstatus & !M_TRAP_BITS) | (bit(mstatus, 3) << 7) | (prev << 11)
    }

    /// `mstatus` on MRET: MIE <- MPIE, MPIE <- 1, MPP <- U.
    pub open spec fn mret_spec(mstatus: u64) -> u64 {
        (mstatus & !M_TRAP_BITS) | (bit(mstatus, 7) << 3) | (1u64 << 7)
    }

    /// `mstatus` on a trap into S-mode: SPIE <- SIE, SIE <- 0, SPP <- 1 when it came from S.
    pub open spec fn s_trap_entry_spec(mstatus: u64, from_smode: bool) -> u64 {
        (mstatus & !S_TRAP_BITS) | (bit(mstatus, 1) << 5) | ((if from_smode { 1u64 } else { 0u64 }) << 8)
    }

    /// `mstatus` on SRET: SIE <- SPIE, SPIE <- 1, SPP <- U.
    pub open spec fn s_ret_spec(mstatus: u64) -> u64 {
        (mstatus & !S_TRAP_BITS) | (bit(mstatus, 5) << 1) | (1u64 << 5)
    }

    pub fn trap_entry(&mut self, prev: u64)
        requires
            prev < 4,
        ensures
            *final(self) == (Csr { mstatus: Csr::trap_entry_spec(old(self).mstatus, prev), ..*old(self) }),
            bit(final(self).mstatus, 3) == 0,
            bit(final(self).mstatus, 7) == bit(old(self).mstatus, 3),
            (final(self).mstatus >> 11) & 3 == prev,
            final(self).mstatus & !M_TRAP_BITS == old(self).mstatus & !M_TRAP_BITS,
    {
        let mie = self.mie_bit();
        let m = self.mstatus;
        self.mstatus = (m & !M_TRAP_BITS) | (mie << 7) | (prev << 11);
        proof {
            let r = self.mstatus;
            assert(r == (m & !0x1888u64) | (((m >> 3) & 1) << 7) | (prev << 11));
            assert(prev < 4 && r == (m & !0x1888u64) | (((m >> 3) & 1) << 7) | (prev << 11) ==>
                (r >> 3) & 1 == 0 && (r >> 7) & 1 == (m >> 3) & 1 && (r >> 11) & 3 == prev
                && r & !0x1888u64 == m & !0x1888u64) by (bit_vector);
        }
    }

    pub fn mret(&mut self)
        ensures
            *final(self) == (Csr { mstatus: Csr::mret_spec(old(self).mstatus), ..*old(self) }),
            bit(final(self).mstatus, 3) == bit(old(self).mstatus, 7),
            bit(final(self).mstatus, 7) == 1,
            (final(self).mstatus >> 11) & 3 == 0,
            final(self).mstatus & !M_TRAP_BITS == old(self).mstatus & !M_TRAP_BITS,
    {
        let m = self.mstatus;
        let mpie = (m >> 7) & 1;
        self.mstatus = (m & !M_TRAP_BITS) | (mpie << 3) | (1u64 << 7);
        proof {
            let r = self.mstatus;
            assert(r == (m & !0x1888u64) | (((m >> 7) & 1) << 3) | (1u64 << 7) ==>
                (r >> 3) & 1 == (m >> 7) & 1 && (r >> 7) & 1 == 1 && (r >> 11) & 3 == 0
                && r & !0x1888u64 == m & !0x1888u64) by (bit_vector);
        }
    }

    pub fn s_trap_entry(&mut self, from_smode: bool)
        ensures
            *final(self) == (Csr { mstatus: Csr::s_trap_entry_spec(old(self).mstatus, from_smode), ..*old(self) }),
            bit(final(self).mstatus, 1) == 0,
            bit(final(self).mstatus, 5) == bit(old(self).mstatus, 1),
            bit(final(self).mstatus, 8) == (if from_smode { 1u64 } else { 0u64 }),
            final(self).mstatus & !S_TRAP_BITS == old(self).mstatus & !S_TRAP_BITS,
    {
        let m = self.mstatus;
        let sie = (m >> 1) & 1;
        let spp: u64 = if from_smode { 1 } else { 0 };
        self.mstatus = (m & !S_TRAP_BITS) | (sie << 5) | (spp << 8);
        proof {
            let r = self.mstatus;
            assert(spp < 2 && r == (m & !0x122u64) | (((m >> 1) & 1) << 5) | (spp << 8) ==>
                (r >> 1) & 1 == 0 && (r >> 5) & 1 == (m >> 1) & 1 && (r >> 8) & 1 == spp
                && r & !0x122u64 == m & !0x122u64) by (bit_vector);
        }
    }

    pub fn s_ret(&mut self)
        ensures
            *final(self) == (Csr { mstatus: Csr::s_ret_spec(old(self).mstatus), ..*old(self) }),
            bit(final(self).mstatus, 1) == bit(old(self).mstatus, 5),
            bit(final(self).mstatus, 5) == 1,
            bit(final(self).mstatus, 8) == 0,
            final(self).mstatus & !S_TRAP_BITS == old(self).mstatus & !S_TRAP_BITS,
    {
        let m = self.mstatus;
        let spie = (m >> 5) & 1;
        self.mstatus = (m & !S_TRAP_BITS) | (spie << 1) | (1u64 << 5);
        proof {
            let r = self.mstatus;
            assert(r == (m & !0x122u64) | (((m >> 5) & 1) << 1) | (1u64 << 5) ==>
                (r >> 1) & 1 == (m >> 5) & 1 && (r >> 5) & 1 == 1 && (r >> 8) & 1 == 0
                && r & !0x122u64 == m & !0x122u64) by (bit_vector);
        }
    }
}

impl Default for Csr {
    fn default() -> (c: Self)
        ensures
            c == Csr::reset_spec(),
    {
        Csr::new()
    }
}

/// Writing a CSR that holds its value as written, then reading it, gives the value back.
pub proof fn lemma_csr_write_read(c: Csr, addr: u16, val: u64)
    requires
        addr == 0x300 || addr == 0x302 || addr == 0x303 || addr == 0x304 || addr == 0x305
            || addr == 0x340 || addr == 0x342 || addr == 0x343 || addr == 0x344 || addr == 0x105
            || addr == 0x140 || addr == 0x142 || addr == 0x143 || addr == 0x180 || addr == 0x14D,
    ensures
        c.write_spec(addr, val).read_spec(addr) == val,
{
}

/// The CSR addresses this register file implements.
pub open spec fn is_known_csr(addr: u16) -> bool {
    addr == 0x300 || addr == 0x301 || addr == 0x302 || addr == 0x303 || addr == 0x304
        || addr == 0x305 || addr == 0x340 || addr == 0x341 || addr == 0x342 || addr == 0x343
        || addr == 0x344 || addr == 0x100 || addr == 0x104 || addr == 0x105 || addr == 0x106
        || addr == 0x140 || addr == 0x141 || addr == 0x142 || addr == 0x143 || addr == 0x144
        || addr == 0x180 || addr == 0x14D || (0xf11 <= addr <= 0xf14)
}

/// `misa` and the machine information registers are read-only: a write changes nothing.
pub proof fn lemma_csr_read_only(c: Csr, addr: u16, val: u64)
    requires
        addr == 0x301 || addr == 0x106 || (0xf11 <= addr <= 0xf14),
    ensures
        c.write_spec(addr, val) == c,
        (0xf11 <= addr <= 0xf14) ==> c.read_spec(addr) == 0,
{
}

/// An unknown CSR reads as zero and ignores writes.
pub proof fn lemma_csr_unknown(c: Csr, addr: u16, val: u64)
    requires
        !is_known_csr(addr),
    ensures
        c.read_spec(addr) == 0,
        c.write_spec(addr, val) == c,
{
}

} // verus!
