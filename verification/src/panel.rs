//! The size of the panel that shows the scope.

use vstd::prelude::*;

verus! {

/// Padding in the panel, in logical pixels.
pub const PADDING: i32 = 8;

/// Width of the panel's border, in logical pixels.
pub const BORDER: i32 = 4;

/// Space between lines of text, in logical pixels.
pub const LINE_GAP: i32 = 2;

/// The units of text layout in a pixel.
pub const TEXT_UNITS: i32 = 1024;

/// The size of a panel, in physical pixels.
#[derive(Clone, Copy, Debug, PartialEq, Eq, Structural)]
pub struct PanelSize {
    pub width: i32,
    pub height: i32,
}

/// The size of a panel around a text: with padding on all sides, and half of the border's width
/// beside it.
pub fn panel_size(text_width: i32, text_height: i32, padding: i32, half_border_width: i32) -> (size:
    PanelSize)
    requires
        i32::MIN <= 2 * padding <= i32::MAX,
        i32::MIN <= 2 * padding + half_border_width <= i32::MAX,
        i32::MIN <= text_width + 2 * padding + half_border_width <= i32::MAX,
        i32::MIN <= text_height + 2 * padding <= i32::MAX,
    ensures
        size.width == text_width + 2 * padding + half_border_width,
        size.height == text_height + 2 * padding,
{
    PanelSize {
        width: text_width + (2 * padding + half_border_width),
        height: text_height + padding * 2,
    }
}

/// The space between the lines of a panel's text, in units of text layout, where it is `line_gap`
/// physical pixels.
pub fn line_spacing(line_gap: i32) -> (spacing: i32)
    requires
        i32::MIN <= line_gap * TEXT_UNITS <= i32::MAX,
    ensures
        spacing == line_gap * TEXT_UNITS,
{
    line_gap * TEXT_UNITS
}

} // verus!
