//! A Game Boy emulator core: CPU, memory bus and picture processing unit.
pub mod arith;
pub mod cpu;
pub mod mmu;
pub mod ppu;
pub mod laws;
