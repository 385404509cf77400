//! The accent colour that highlights selection.
use vstd::prelude::*;

verus! {

/// The brand colour used when Windows exposes no accent colour (`0x00BBGGRR`).
pub const DEFAULT_ACCENT: u32 = 0x0093_8316;

/// The accent colour for a value read from the `AccentColor` registry
/// value: the stored `0xAABBGGRR` without its alpha byte, or the brand
/// colour when nothing was read or the colour is black.
pub open spec fn accent_spec(read: Option<u32>) -> u32 {
    match read {
        Some(v) => if v & 0x00FF_FFFF == 0 {
            DEFAULT_ACCENT
        } else {
            v & 0x00FF_FFFF
        },
        None => DEFAULT_ACCENT,
    }
}

/// Exec `accent_spec`.
pub fn accent_color(read: Option<u32>) -> (r: u32)
    ensures
        r == accent_spec(read),
        r != 0,
{
    match read {
        Some(v) => {
            let color = v & 0x00FF_FFFF;
            if color == 0 {
                DEFAULT_ACCENT
            } else {
                color
            }
        },
        None => DEFAULT_ACCENT,
    }
}

} // verus!
