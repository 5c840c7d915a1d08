//! Core of a handheld game console emulator: register file, ALU, bus with
//! memory-mapped I/O, instruction executor, pixel-processing unit, timers and
//! the debugging aids that observe them.
pub mod constants;
pub mod memory;
pub mod operations;
pub mod basic_memory;
pub mod cpu_spec;
pub mod opcodes;
pub mod system;
pub mod model_render;
pub mod ppu;
pub mod sparse_vec;
pub mod metrics;
pub mod debug;
pub mod console;
