//! A verified interpreter core for a fixed-width bytecode virtual machine
//! with a 4096-byte address space, sixteen 8-bit registers, and a 64x32
//! monochrome framebuffer drawn by XOR sprites.
//!
//! The core is host-driven: the host loads a ROM image, then repeatedly
//! calls [`chip8::Chip8::tick`], which fetches, decodes, and executes one
//! instruction and reports whether the framebuffer changed. Presentation,
//! pacing, and ROM file reading are the host's concern.

pub mod chip8;
pub mod memory;
pub mod traits;
