//! Geometry of the text box that floats over the launcher: inside the
//! search field or in the middle of the dialog overlay.
use crate::layout::{div_trunc, div_trunc_exec, fits_i32, mk_rect, Rect, MAX_DPI};
use vstd::prelude::*;

verus! {

/// Where the edit control goes and its packed left/right margins.
pub struct InputGeometry {
    pub rect: Rect,
    /// Left margin in the low word, right margin in the high word.
    pub margin_param: isize,
}

/// A length at a DPI (never below 96), rounded to nearest.
pub open spec fn input_scale(v: int, dpi: int) -> int {
    let d = if dpi < 96 {
        96
    } else {
        dpi
    };
    (v * d + 48) / 96
}

/// Height of the edit control in `rect`: the dialog's fixed height (at most
/// the rectangle's), or the search field less a small inset; at least 1.
pub open spec fn input_height(rect: Rect, dpi: int, dialog: bool) -> int {
    let h = if dialog {
        if input_scale(24, dpi) < rect.h() {
            input_scale(24, dpi)
        } else {
            rect.h()
        }
    } else {
        rect.h() - input_scale(6, dpi)
    };
    if h < 1 {
        1
    } else {
        h
    }
}

/// The edit control's rectangle: one pixel in from the sides, vertically
/// centred (rounding towards the top).
pub open spec fn input_rect(rect: Rect, dpi: int, dialog: bool) -> Rect {
    let height = input_height(rect, dpi, dialog);
    let top = rect.top + div_trunc(rect.h() - height, 2);
    mk_rect(rect.left + 1, top, rect.right - 1, top + height)
}

/// Inner margin of the edit control.
pub open spec fn input_margin(dpi: int, dialog: bool) -> int {
    if dialog {
        input_scale(10, dpi)
    } else {
        input_scale(8, dpi)
    }
}

/// Geometry of the edit control placed in `rect`.
pub fn input_geometry(rect: Rect, dpi: u32, dialog: bool) -> (r: InputGeometry)
    requires
        dpi <= MAX_DPI,
        -100_000_000 <= rect.left <= 100_000_000,
        -100_000_000 <= rect.right <= 100_000_000,
        -100_000_000 <= rect.top <= 100_000_000,
        -100_000_000 <= rect.bottom <= 100_000_000,
    ensures
        r.rect == input_rect(rect, dpi as int, dialog),
        r.margin_param == input_margin(dpi as int, dialog) * 65537,
{
    let d: i64 = if dpi < 96 {
        96
    } else {
        dpi as i64
    };
    let s24 = (24 * d + 48) / 96;
    let s6 = (6 * d + 48) / 96;
    let s10 = (10 * d + 48) / 96;
    let s8 = (8 * d + 48) / 96;
    let h = rect.bottom as i64 - rect.top as i64;
    let wanted = if dialog {
        if s24 < h {
            s24
        } else {
            h
        }
    } else {
        h - s6
    };
    let height = if wanted < 1 {
        1
    } else {
        wanted
    };
    let top = rect.top as i64 + div_trunc_exec(h - height, 2);
    let margin: i64 = if dialog {
        s10
    } else {
        s8
    };
    let result = Rect {
        left: rect.left + 1,
        top: top as i32,
        right: rect.right - 1,
        bottom: (top + height) as i32,
    };
    InputGeometry { rect: result, margin_param: (margin * 65537) as isize }
}

} // verus!
