//! A Super Nintendo (SNES) emulation core: a 65816 CPU model, a 24-bit address
//! space, ROM header decoding and the bookkeeping of a small interactive debugger.

pub mod memory;
pub mod romdata;
pub mod cpu;
pub mod numfmt;
pub mod debugger;
pub mod simple;
pub mod rominfo;
pub mod emu;
