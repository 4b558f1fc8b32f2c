//! Colors of Markdown text.
use crate::widgets::kit::Ink;
use vstd::prelude::*;

verus! {

/// The bytes of a color that hides what is behind it; what is above its lowest three
/// bytes does not count.
pub fn color(rgb: u32) -> (r: Ink)
    ensures
        rgb % 0x100_0000 == r.red * 0x1_0000 + r.green * 0x100 + r.blue,
        r.alpha == 255,
{
    Ink {
        red: ((rgb / 0x1_0000) % 0x100) as u8,
        green: ((rgb / 0x100) % 0x100) as u8,
        blue: (rgb % 0x100) as u8,
        alpha: 255,
    }
}

} // verus!
