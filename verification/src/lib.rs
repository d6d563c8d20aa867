//! Keyboard-matrix translation core.
//!
//! The library turns a set of currently pressed USB HID key codes into the
//! electrical picture of a legacy keyboard switch matrix.  A fixed keymap
//! table assigns each key a matrix coordinate (an output-column index and a
//! single-bit row mask); an inverse keymap derived from it is consulted per
//! key.  The aggregator folds the pressed keys into four 32-bit column-state
//! words, one byte lane per output column.  The scan responder takes the
//! host's column-select pattern, widens each selected column to a full byte
//! lane through an expansion lookup, masks the column-state words with it,
//! and reduces the result to the active-low byte driven onto the row output
//! lines.
//!
//! Everything here is pure computation on plain integers: reading the select
//! lines, storing the shared words, and driving the output pins belong to
//! the surrounding target-specific shell.

use vstd::prelude::*;

pub mod bits;
pub mod keys;
pub mod scan;
pub mod state;

verus! {

/// Mask of the sixteen column-select input lines within the 32-bit port word.
pub const PINS_IN_MASK: u32 = 0b1111_1111_1111_1111;

/// Bit offset of the row output lines within the 32-bit port word.
pub const PINS_OUT_SHIFT: u8 = 16;

} // verus!
