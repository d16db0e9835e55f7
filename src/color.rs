use vstd::prelude::*;

use crate::escape::EscapeResult;
use crate::frame::Rgb;

verus! {

/// The color of a point whose orbit stayed bounded.
pub const BLACK: Rgb = (0, 0, 0);

/// The pre-offset (red, green, blue) of an HSV color by the integer part
/// `sector` of its hue scaled to six sectors, given its chroma, its second
/// largest component and a zero. Sectors from five up share the last case.
pub open spec fn sector_rgb<T>(sector: u8, chroma: T, second: T, zero: T) -> (T, T, T) {
    if sector == 0 {
        (chroma, second, zero)
    } else if sector == 1 {
        (second, chroma, zero)
    } else if sector == 2 {
        (zero, chroma, second)
    } else if sector == 3 {
        (zero, second, chroma)
    } else if sector == 4 {
        (second, zero, chroma)
    } else {
        (chroma, zero, second)
    }
}

/// Places chroma, second component and zero on the red, green and blue
/// channels as the hue sector asks.
pub fn hue_sector_rgb<T: Copy>(sector: u8, chroma: T, second: T, zero: T) -> (r: (T, T, T))
    ensures
        r == sector_rgb(sector, chroma, second, zero),
{
    match sector {
        0 => (chroma, second, zero),
        1 => (second, chroma, zero),
        2 => (zero, chroma, second),
        3 => (zero, second, chroma),
        4 => (second, zero, chroma),
        _ => (chroma, zero, second),
    }
}

/// Colors an escape result: black for a bounded orbit, and for an escaped one
/// whatever `escaped_color` gives for its iteration count and final value.
pub fn color_for<T, G: Fn(u32, T) -> Rgb>(result: EscapeResult<T>, escaped_color: G) -> (r: Rgb)
    requires
        forall|n: u32, v: T| escaped_color.requires((n, v)),
    ensures
        result matches EscapeResult::Bounded ==> r == BLACK,
        result matches EscapeResult::Escaped { iter_count, final_val } ==> escaped_color.ensures(
            (iter_count, final_val),
            r,
        ),
{
    match result {
        EscapeResult::Bounded => BLACK,
        EscapeResult::Escaped { iter_count, final_val } => escaped_color(iter_count, final_val),
    }
}

} // verus!
