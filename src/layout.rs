use vstd::prelude::*;

verus! {

/// The extent of a box side that fits a screen side of `screen`: `inner` itself when
/// the box with its two border cells fits, and otherwise what the screen leaves
/// inside the borders.
pub open spec fn fitted(inner: int, screen: int) -> int {
    if inner + 2 > screen {
        screen - 2
    } else {
        inner
    }
}

/// The left and top margins that center a box of inner size `width` by `height`,
/// plus its border, on a screen of `screen_width` by `screen_height` cells; a box
/// larger than the screen is first shrunk to fit.
pub fn centered_margins(width: u16, height: u16, screen_width: u16, screen_height: u16) -> (r: (
    u16,
    u16,
))
    requires
        screen_width >= 2,
        screen_height >= 2,
        width + 2 <= u16::MAX,
        height + 2 <= u16::MAX,
    ensures
        r.0 == (screen_width - fitted(width as int, screen_width as int) - 2) / 2,
        r.1 == (screen_height - fitted(height as int, screen_height as int) - 2) / 2,
{
    let width = if width + 2 > screen_width {
        screen_width - 2
    } else {
        width
    };
    let height = if height + 2 > screen_height {
        screen_height - 2
    } else {
        height
    };
    ((screen_width - width - 2) / 2, (screen_height - height - 2) / 2)
}

} // verus!
