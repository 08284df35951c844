//! Input events, as plain values: what the device layer hands the server
//! after decoding the hardware's own records, and how the pointer state
//! follows them. Reading the devices themselves is outside this library.

use vstd::prelude::*;
use crate::ctx::Context;

verus! {

/// A keycode.
pub type Keycode = u8;

/// Enumeration of mouse buttons.
#[derive(Clone, Copy, PartialEq, Eq, Structural)]
pub enum MouseButton {
    /// Left click.
    Button1,
    /// Right click.
    Button2,
    /// Middle click.
    Button3,
    /// Scroll up.
    Button4,
    /// Scroll down.
    Button5,
}

/// An enumeration of input actions.
#[derive(Clone, Copy, PartialEq, Eq, Structural)]
pub enum Input {
    /// Keyboard key press.
    KeyPress(Keycode),
    /// Keyboard key release.
    KeyRelease(Keycode),
    /// Moving the cursor relative to the previous position.
    RelativeMove {
        /// The X delta relative to the previous position.
        delta_x: i32,
        /// The Y delta relative to the previous position.
        delta_y: i32,
    },
    /// Moving the cursor to an absolute position.
    AbsoluteMove {
        /// The X position.
        x: u32,
        /// The Y position.
        y: u32,
    },
    /// Mouse button press.
    ButtonPress(MouseButton),
    /// Mouse button release.
    ButtonRelease(MouseButton),
}

/// A coordinate clamped to the pointer's 16-bit range.
pub open spec fn clamp_coord(v: int) -> int {
    if v < 0 {
        0
    } else if v > 0x7FFF {
        0x7FFF
    } else {
        v
    }
}

impl Context {
    /// Updates the pointer state from one input event: moves clamp to the
    /// pointer's coordinate range, keys and buttons leave the pointer where
    /// it is.
    pub fn apply_input(&mut self, input: Input)
        ensures
            *final(self) == (Context { pointer: final(self).pointer, ..*old(self) }),
            final(self).pointer.screen == old(self).pointer.screen,
            final(self).pointer.cursor == old(self).pointer.cursor,
            match input {
                Input::RelativeMove { delta_x, delta_y } => {
                    &&& final(self).pointer.x == clamp_coord(
                        old(self).pointer.x + delta_x,
                    )
                    &&& final(self).pointer.y == clamp_coord(old(self).pointer.y + delta_y)
                },
                Input::AbsoluteMove { x, y } => {
                    &&& final(self).pointer.x == clamp_coord(x as int)
                    &&& final(self).pointer.y == clamp_coord(y as int)
                },
                _ => final(self).pointer == old(self).pointer,
            },
    {
        match input {
            Input::RelativeMove { delta_x, delta_y } => {
                self.pointer.x = clamp_coord_exec(self.pointer.x as i64 + delta_x as i64);
                self.pointer.y = clamp_coord_exec(self.pointer.y as i64 + delta_y as i64);
            },
            Input::AbsoluteMove { x, y } => {
                self.pointer.x = clamp_coord_exec(x as i64);
                self.pointer.y = clamp_coord_exec(y as i64);
            },
            _ => {},
        }
    }
}

/// Clamps a coordinate to the pointer's 16-bit range.
fn clamp_coord_exec(v: i64) -> (r: i16)
    ensures
        r == clamp_coord(v as int),
{
    if v < 0 {
        0
    } else if v > 0x7FFF {
        0x7FFF
    } else {
        v as i16
    }
}

} // verus!
