//! A colour palette for a keyboard backlight: an ordered list of swatches, at
//! most one of them current, with the transitions that a user's clicks cause
//! and the device writes and notifications that follow from them.
//!
//! The palette is a pure state machine. A host shows it, opens the colour
//! picker, talks to the device, and feeds what happened back in as events.

pub mod color;
pub mod keyboard_color_button;
pub mod laws;
pub mod layout;
pub mod palette;
pub mod swatch;
pub mod sync;
