//! Freestanding bring-up layer: a text-mode display driver over a fixed
//! cell grid, a serial debug channel, and a minimal test harness that
//! terminates the hosting emulator with a pass/fail signal.
//!
//! The hardware itself (memory-mapped display, UART registers, the exit
//! port) is reached only from the surrounding binary; this crate holds the
//! verified state and decision logic: what bytes land in which cell, what
//! the host observes on the serial line, and which exit code is written.

use vstd::prelude::*;

pub mod harness;
pub mod serial;
pub mod vga_buffer;

pub use harness::QemuExitCode;
pub use harness::Testable;
pub use harness::test_runner;
pub use serial::DebugChannel;
pub use vga_buffer::ScreenCell;
pub use vga_buffer::TextConsole;

verus! {

/// Number of text rows in the display grid.
pub const HEIGHT: usize = 25;

/// Number of text columns in the display grid.
pub const WIDTH: usize = 80;

} // verus!
