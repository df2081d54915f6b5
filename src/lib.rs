//! Emulation of a console graphics data path: a DMA engine feeds a packet
//! parser, which loads the data memory of a VLIW vector unit; the unit's
//! micro-program emits a tagged primitive stream that a software rasterizer
//! draws into a pixel buffer.

pub mod cpu;
pub mod dmac;
pub mod ee;
pub mod emulator;
pub mod gif;
pub mod gs_rasterizer;
pub mod lanes;
pub mod quad;
pub mod vif1;
pub mod vu;
pub mod vu1;
pub mod vu1_program;
