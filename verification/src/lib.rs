//! The core of a Game Boy Advance emulator: processor, picture unit, timers,
//! DMA channels and the memory map that ties them together.

pub mod bits;
pub mod clock;
pub mod cpu;
pub mod device_laws;
pub mod dma;
pub mod interrupts;
pub mod keys;
pub mod laws;
pub mod memory;
pub mod ppu;
pub mod system;
pub mod timer;
