//! Frame dimensions and the interface to a presentation collaborator.

use vstd::prelude::*;

verus! {

/// Width of the frame in cells.
pub const BASE_WIDTH: usize = 64;

/// Height of the frame in cells.
pub const BASE_HEIGHT: usize = 32;

/// Number of cells in the frame, stored row-major.
pub const BUFFER_SIZE: usize = 64 * 32;

/// A presentation collaborator: renders one snapshot of the framebuffer.
/// Each cell of the buffer is 0 (dark) or 1 (lit). Implementations live
/// with the host; the core itself never draws to a device.
pub trait ScreenDisplay {
    fn draw(&mut self, buffer: [u8; BUFFER_SIZE]);
}

} // verus!
