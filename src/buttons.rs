//! Native button codes of the X11 backend, as engine buttons.

use vstd::prelude::*;
use crate::event::{Button, Mouse};

verus! {

/// The engine button that X11 pointer button `detail` stands for.
pub open spec fn x11_mouse_button(detail: u8) -> Button {
    Button::Mouse(
        if detail == 1 {
            Mouse::Left
        } else if detail == 2 {
            Mouse::Middle
        } else if detail == 3 {
            Mouse::Right
        } else {
            Mouse::Unknown(detail as u32)
        },
    )
}

/// Translates X11 pointer button `detail`: buttons 1, 2 and 3 are left,
/// middle and right; any other is kept as an unknown code.
pub fn translate_mouse_button(detail: u8) -> (r: Button)
    ensures
        r == x11_mouse_button(detail),
{
    Button::Mouse(
        match detail {
            1 => Mouse::Left,
            2 => Mouse::Middle,
            3 => Mouse::Right,
            _ => Mouse::Unknown(detail as u32),
        },
    )
}

} // verus!
