//! A minimal machine: a 16-bit CPU model with an accumulator that decodes every
//! fetch as a no-op, and a 64 KiB memory.
pub mod cpu;
pub mod memory;
