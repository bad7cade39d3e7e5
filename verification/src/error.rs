//! Error types for kakukuma.

use vstd::prelude::*;

verus! {

/// Error taxonomy for kakukuma operations. I/O and serialization
/// failures reach the engine as plain messages; the front end converts
/// its own error values into these variants.
#[derive(Clone, Debug, PartialEq, Eq)]
pub enum KakuError {
    /// Failed to read a file
    FileRead(String),
    /// Invalid file format
    InvalidFormat(String),
    /// Canvas size exceeds maximum
    CanvasTooLarge(u16, u16),
    /// Terminal too small for the layout
    TerminalTooSmall {
        needed_width: u16,
        needed_height: u16,
        actual_width: u16,
        actual_height: u16,
    },
    /// Clipboard error
    Clipboard(String),
    /// JSON error
    Json(String),
}

} // verus!
