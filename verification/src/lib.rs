pub mod bus;
pub mod clint;
pub mod cpu;
pub mod dtb;
pub mod irq;
pub mod jit;
pub mod loader;
pub mod plic;
pub mod run;
pub mod rvc;
pub mod uart;
pub mod virtio_blk;
