//! A verified CHIP-8 virtual machine core.
//!
//! The machine is a 4096-byte memory seeded with hexadecimal digit sprites,
//! sixteen byte registers, a sixteen-slot call stack, a 64x32 monochrome
//! framebuffer mutated only by XOR, two 60 Hz timers, and an instruction
//! engine driven one cycle at a time by a host clock. The whole observable
//! behaviour of a cycle is captured by the specification function
//! [`semantics::step`], and [`cpu::Cpu::tick`] is proved to implement it.

use vstd::prelude::*;

pub mod cpu;
pub mod display;
pub mod laws;
pub mod semantics;

verus! {

/// Width of the framebuffer in pixels.
pub const DISPLAY_WIDTH: usize = 64;

/// Height of the framebuffer in pixels.
pub const DISPLAY_HEIGHT: usize = 32;

} // verus!
