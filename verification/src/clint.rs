use vstd::prelude::*;

verus! {

/// mtime ticks added per call to `tick()`. The DTB advertises a 10 MHz
/// timebase; the run loop calls `tick()` once per batch of guest work, so a
/// step of 128 keeps Linux's scheduler tick within milliseconds of real time.
pub const MTIME_INC: u64 = 128;

/// Address of the mtime register.
pub const MTIME_ADDR: u64 = 0x0200_BFF8;

/// Address of hart 0's mtimecmp register.
pub const MTIMECMP_ADDR: u64 = 0x0200_4000;

/// Core-local interruptor: the machine timer.
#[derive(Clone, Copy, Debug, PartialEq, Eq, Structural)]
pub struct Clint {
    pub mtime: u64,
    pub mtimecmp: u64,
}

impl Clint {
    /// What a load from `addr` returns.
    pub open spec fn load_spec(&self, addr: u64) -> u64 {
        if addr == MTIME_ADDR { self.mtime } else if addr == MTIMECMP_ADDR { self.mtimecmp } else { 0 }
    }

    /// The timer after a store of `val` to `addr`: only mtimecmp is writable.
    pub open spec fn store_spec(self, addr: u64, val: u64) -> Clint {
        if addr == MTIMECMP_ADDR { Clint { mtimecmp: val, ..self } } else { self }
    }

    /// The reset state: mtime 0, the compare register all ones.
    pub open spec fn reset_spec() -> Clint {
        Clint { mtime: 0, mtimecmp: u64::MAX }
    }

    pub fn new() -> (c: Self)
        ensures
            c == Clint::reset_spec(),
    {
        Clint { mtime: 0, mtimecmp: u64::MAX }
    }

    /// Advance mtime; report whether the timer interrupt is due (mtime >= mtimecmp).
    pub fn tick(&mut self) -> (due: bool)
        ensures
            final(self).mtime == old(self).mtime.wrapping_add(MTIME_INC),
            final(self).mtimecmp == old(self).mtimecmp,
            due == (final(self).mtime >= final(self).mtimecmp),
    {
        self.mtime = self.mtime.wrapping_add(MTIME_INC);
        self.mtime >= self.mtimecmp
    }

    pub fn load(&self, addr: u64, _width: usize) -> (r: u64)
        ensures
            r == self.load_spec(addr),
    {
        match addr {
            MTIME_ADDR => self.mtime,
            MTIMECMP_ADDR => self.mtimecmp,
            _ => 0,
        }
    }

    /// Only mtimecmp is writable; other stores are ignored.
    pub fn store(&mut self, addr: u64, _width: usize, val: u64)
        ensures
            *final(self) == old(self).store_spec(addr, val),
    {
        if addr == MTIMECMP_ADDR {
            self.mtimecmp = val;
        }
    }
}

/// A value stored to mtimecmp is what a later load of mtimecmp returns, and the
/// store leaves mtime as it was.
pub proof fn lemma_mtimecmp_round_trip(c: Clint, val: u64)
    ensures
        c.store_spec(MTIMECMP_ADDR, val).load_spec(MTIMECMP_ADDR) == val,
        c.store_spec(MTIMECMP_ADDR, val).load_spec(MTIME_ADDR) == c.mtime,
{
}

/// Stores anywhere but mtimecmp change nothing (mtime is read-only).
pub proof fn lemma_clint_store_elsewhere(c: Clint, addr: u64, val: u64)
    requires
        addr != MTIMECMP_ADDR,
    ensures
        c.store_spec(addr, val) == c,
{
}

} // verus!
