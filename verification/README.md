# riscv_emu

A RISC-V RV64GC system emulator (M/S/U privilege levels, Sv39 MMU, CLINT,
PLIC, 16550 UART, virtio-blk) that boots OpenSBI and Linux, with its machine
model verified in Verus.

Layout:

- `src/` — the verified library.
  - `bus.rs` — physical address space: RAM and the MMIO device windows, with
    the little-endian byte model and read-after-write laws.
  - `cpu/` — the hart: `decode.rs` (32-bit and compressed decoding),
    `execute.rs` (RV64IMA, Zicsr, privileged instructions, the bit-level part
    of F/D), `mmu.rs` (Sv39 walk, TLB, A/D bits), `csr.rs`, and `mod.rs`
    (fetch, interrupts, traps, the step function).
  - `clint.rs`, `plic.rs`, `uart.rs`, `virtio_blk.rs`, `irq.rs` — devices and
    the wiring of their interrupt lines.
  - `loader.rs` (ELF images through `goblin`), `dtb.rs` (the device tree
    through `vm-fdt`), `jit.rs` (block planning, memory callouts and the
    block cache of the compiler), `run.rs` (the run loop's decisions: ticks,
    flushes of compiled code, device polling, the timer), `rvc.rs`
    (compressed-immediate helpers).
- `app/` — the command-line program: file and terminal I/O, the run loop
  (performing what `run.rs` decides),
  floating-point arithmetic, disk I/O, and the x86-64 code emitter of the
  block compiler.
- `tests/` — executable tests of the library.

Verus verifies all of `src/`: the public functions, and the private ones
whose results others rely on, carry `requires`/`ensures` contracts; calls
into `goblin` and `vm-fdt` go through small trusted wrappers whose contracts
are stated next to them.
