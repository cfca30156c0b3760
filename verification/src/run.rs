use vstd::prelude::*;
use crate::cpu::PrivMode;

verus! {

// The run loop's decisions: how far the tick moves for what ran, when compiled
// code is dropped or a missed block compiled, when devices are polled, and how
// far the machine timer moves for elapsed wall time. The program performs the
// actions and feeds back what happened.

/// Ticks between two flushes of compiled code for FENCE.I, at least.
pub const FENCE_I_FLUSH_GAP: u64 = 65536;

/// The loop's own state: the tick count (about one per guest instruction) and
/// the tick of the last flush for FENCE.I.
#[derive(Debug, Clone, Copy, PartialEq, Eq, Structural)]
pub struct RunState {
    pub tick: u64,
    pub last_fence_i_flush: u64,
}

/// What ran in one turn of the loop: one interpreted instruction, or a
/// compiled block entered in privilege `mode`.
#[derive(Debug, Clone, Copy, PartialEq, Eq, Structural)]
pub enum Ran {
    Interpreted,
    Block { mode: PrivMode },
}

/// What the loop does after a turn: drop all compiled code, compile the block
/// whose lookup missed, poll the devices (timer, interrupts, host input).
#[derive(Debug, Clone, Copy, PartialEq, Eq, Structural)]
pub struct RunAction {
    pub invalidate_jit: bool,
    pub compile_after_miss: bool,
    pub poll: bool,
}

/// Ticks that a turn accounts for: 1 for an interpreted instruction; a block
/// counts 64 in M-mode (long firmware blocks) and 8 otherwise.
pub open spec fn tick_inc(ran: Ran) -> u64 {
    match ran {
        Ran::Interpreted => 1,
        Ran::Block { mode } => if mode == PrivMode::M { 64 } else { 8 },
    }
}

/// Whether a pending FENCE.I flushes now: the last such flush is at least
/// FENCE_I_FLUSH_GAP ticks back.
pub open spec fn fence_i_flushes(s: RunState, fence_i_pending: bool) -> bool {
    fence_i_pending && s.tick.wrapping_sub(s.last_fence_i_flush) >= FENCE_I_FLUSH_GAP
}

/// The loop after a turn in which `ran` ran; `missed` when no compiled block was
/// found for the pc, and the hart's flags `jit_invalidate` (satp written or
/// SFENCE.VMA) and `fence_i_pending` (FENCE.I executed) as the turn left them.
/// Compiled code is dropped for a changed address space at once, for FENCE.I
/// at most once per FENCE_I_FLUSH_GAP ticks; a missed block is compiled only
/// when neither flag is set; devices are polled every 1024 ticks.
pub fn after_step(s: RunState, ran: Ran, missed: bool, jit_invalidate: bool, fence_i_pending: bool)
    -> (r: (RunState, RunAction))
    ensures
        r.0.tick == s.tick.wrapping_add(tick_inc(ran)),
        r.0.last_fence_i_flush == (if fence_i_flushes(s, fence_i_pending) { s.tick } else { s.last_fence_i_flush }),
        r.1.invalidate_jit == (jit_invalidate || fence_i_flushes(s, fence_i_pending)),
        r.1.compile_after_miss == (missed && !jit_invalidate && !fence_i_pending),
        r.1.poll == (r.0.tick & 1023 == 0),
{
    let inc: u64 = match ran {
        Ran::Interpreted => 1,
        Ran::Block { mode } => match mode {
            PrivMode::M => 64,
            _ => 8,
        },
    };
    let flush_fence_i = fence_i_pending && s.tick.wrapping_sub(s.last_fence_i_flush) >= FENCE_I_FLUSH_GAP;
    let tick = s.tick.wrapping_add(inc);
    let last_fence_i_flush = if flush_fence_i { s.tick } else { s.last_fence_i_flush };
    (
        RunState { tick, last_fence_i_flush },
        RunAction {
            invalidate_jit: jit_invalidate || flush_fence_i,
            compile_after_miss: missed && !jit_invalidate && !fence_i_pending,
            poll: tick & 1023 == 0,
        },
    )
}

/// Machine-timer ticks in `elapsed_ns` of wall time: the timer runs at 10 MHz,
/// one tick per 100 ns.
pub open spec fn mtime_ticks(elapsed_ns: u64) -> u64 {
    elapsed_ns / 100
}

/// The machine timer after `elapsed_ns` of wall time at its 10 MHz timebase
/// (100 ns a tick), and whether any whole tick elapsed (only then is the
/// elapsed time used up; the rest carries over to the next poll).
pub fn advance_mtime(mtime: u64, elapsed_ns: u64) -> (r: (u64, bool))
    ensures
        r.0 == mtime.wrapping_add(mtime_ticks(elapsed_ns)),
        r.1 == (mtime_ticks(elapsed_ns) > 0),
{
    let ticks: u64 = elapsed_ns / 100;
    (mtime.wrapping_add(ticks), ticks > 0)
}

} // verus!
