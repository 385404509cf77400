//! Drawing decisions that do not depend on the device: centring a control
//! and where item labels break into lines.
use crate::layout::{div_trunc, div_trunc_exec, mk_rect, Rect};
use crate::text::{chars_of, string_of};
use vstd::prelude::*;
use vstd::string::StringExecFns;

verus! {

/// UTF-16 units after which a label may break: space, `-`, `_`, `.`, `/`,
/// `\`, `+` and `(`.
pub open spec fn break_unit(unit: u16) -> bool {
    unit == 0x20 || unit == 0x2D || unit == 0x5F || unit == 0x2E || unit == 0x2F || unit == 0x5C
        || unit == 0x2B || unit == 0x28
}

/// Exec `break_unit`.
pub fn is_break_character(unit: u16) -> (r: bool)
    ensures
        r == break_unit(unit),
{
    unit == 0x20 || unit == 0x2D || unit == 0x5F || unit == 0x2E || unit == 0x2F || unit == 0x5C
        || unit == 0x2B || unit == 0x28
}

/// A UTF-16 high surrogate.
pub open spec fn high_surrogate(unit: u16) -> bool {
    0xD800 <= unit <= 0xDBFF
}

/// Last position before `end` holding a break unit.
pub open spec fn last_break(units: Seq<u16>, end: int) -> Option<int>
    decreases end,
{
    if end <= 0 {
        None
    } else if break_unit(units[end - 1]) {
        Some(end - 1)
    } else {
        last_break(units, end - 1)
    }
}

/// Last position before `end` holding a space.
pub open spec fn last_space(units: Seq<u16>, end: int) -> Option<int>
    decreases end,
{
    if end <= 0 {
        None
    } else if units[end - 1] == 0x20 {
        Some(end - 1)
    } else {
        last_space(units, end - 1)
    }
}

/// Where a line of `t` units that the text goes on after ends: after its
/// last space, otherwise after its last other break unit (`-`, `_`, `.`,
/// `/`, `\`, `+`, `(`), and inside the token only when neither exists past
/// the line's first unit.
pub open spec fn preferred_end(units: Seq<u16>, t: int) -> int {
    match last_space(units, t) {
        Some(k) if k > 0 => k + 1,
        _ => match last_break(units, t) {
            Some(k) if k > 0 => k + 1,
            _ => t,
        },
    }
}

/// How many units of `units` the next line takes when `fit` of them fit
/// the width: at least one; never splitting a surrogate pair at the end of
/// the line; and, when the text goes on, up to its preferred break
/// (`preferred_end`).
pub open spec fn line_take(units: Seq<u16>, fit: int) -> int {
    let f = if fit < 1 {
        1
    } else {
        fit
    };
    let t = if f < units.len() {
        f
    } else {
        units.len() as int
    };
    let t = if t < units.len() && high_surrogate(units[t - 1]) {
        if t - 1 < 1 {
            1
        } else {
            t - 1
        }
    } else {
        t
    };
    if t < units.len() {
        preferred_end(units, t)
    } else {
        t
    }
}

/// A found break lies before the end.
proof fn lemma_last_before(units: Seq<u16>, end: int)
    requires
        end <= units.len(),
    ensures
        last_space(units, end) matches Some(k) ==> 0 <= k < end,
        last_break(units, end) matches Some(k) ==> 0 <= k < end,
    decreases end,
{
    if end > 0 {
        lemma_last_before(units, end - 1);
    }
}

/// Exec `line_take`, for a non-empty text.
pub fn line_break(units: &[u16], fit: usize) -> (r: usize)
    requires
        units@.len() > 0,
    ensures
        r == line_take(units@, fit as int),
        1 <= r <= units@.len(),
{
    let f = if fit < 1 {
        1
    } else {
        fit
    };
    let mut t = if f < units.len() {
        f
    } else {
        units.len()
    };
    if t < units.len() && 0xD800 <= units[t - 1] && units[t - 1] <= 0xDBFF {
        t = if t - 1 < 1 {
            1
        } else {
            t - 1
        };
    }
    if t < units.len() {
        proof {
            lemma_last_before(units@, t as int);
        }
        let mut k = t;
        while k > 0 && units[k - 1] != 0x20
            invariant
                k <= t < units@.len(),
                last_space(units@, t as int) == last_space(units@, k as int),
            decreases k,
        {
            k -= 1;
        }
        if k > 1 {
            return k;
        }
        let mut k = t;
        while k > 0 && !is_break_character(units[k - 1])
            invariant
                k <= t < units@.len(),
                last_break(units@, t as int) == last_break(units@, k as int),
            decreases k,
        {
            k -= 1;
        }
        if k > 1 {
            return k;
        }
    }
    t
}

/// How an item tile is filled.
#[derive(PartialEq, Eq, Structural, Debug, Clone, Copy)]
pub enum TileFill {
    Pressed,
    Hovered,
    Selected,
    Plain,
}

/// The fill of the tile of item `index` (counted over all items on show):
/// pressed before hovered, and the selection only while the keyboard moves it.
pub fn tile_fill(
    index: usize,
    pressed: Option<usize>,
    hovered: Option<usize>,
    keyboard_selection: bool,
    selected: Option<usize>,
) -> (r: TileFill)
    ensures
        r == (if pressed == Some(index) {
            TileFill::Pressed
        } else if hovered == Some(index) {
            TileFill::Hovered
        } else if keyboard_selection && selected == Some(index) {
            TileFill::Selected
        } else {
            TileFill::Plain
        }),
{
    if pressed == Some(index) {
        TileFill::Pressed
    } else if hovered == Some(index) {
        TileFill::Hovered
    } else if keyboard_selection && selected == Some(index) {
        TileFill::Selected
    } else {
        TileFill::Plain
    }
}

/// The hint shown over an empty grid: no match for a search with a query,
/// otherwise how to add items.
pub fn empty_grid_message(search_mode: bool, query: &str) -> (r: &'static str)
    ensures
        r@ == (if search_mode && query@.len() > 0 {
            "没有匹配的项目"@
        } else {
            "拖入文件，或点击右上角添加"@
        }),
{
    if search_mode && query.unicode_len() > 0 {
        "没有匹配的项目"
    } else {
        "拖入文件，或点击右上角添加"
    }
}

/// A name cut to at most `max` characters, with an ellipsis when cut.
pub open spec fn elided(s: Seq<char>, max: int) -> Seq<char> {
    if s.len() > max {
        s.subrange(0, max).push('…')
    } else {
        s
    }
}

/// Exec `elided`.
pub fn elide(value: &str, max: usize) -> (r: String)
    ensures
        r@ == elided(value@, max as int),
{
    let chars = chars_of(value);
    if chars.len() > max {
        let mut prefix: Vec<char> = Vec::new();
        let mut i: usize = 0;
        while i < max
            invariant
                i <= max < chars@.len(),
                prefix@ == chars@.subrange(0, i as int),
            decreases max - i,
        {
            prefix.push(chars[i]);
            i += 1;
            assert(prefix@ =~= chars@.subrange(0, i as int));
        }
        prefix.push('…');
        string_of(prefix.as_slice())
    } else {
        String::from_str(value)
    }
}

/// A control of the given size centred in `rect` (rounding towards the
/// top left).
pub open spec fn centered_spec(rect: Rect, width: int, height: int) -> Rect {
    let left = rect.left + div_trunc(rect.w() - width, 2);
    let top = rect.top + div_trunc(rect.h() - height, 2);
    mk_rect(left, top, left + width, top + height)
}

/// Exec `centered_spec`.
pub fn centered_control(rect: Rect, width: i32, height: i32) -> (r: Rect)
    requires
        -100_000_000 <= rect.left <= 100_000_000,
        -100_000_000 <= rect.right <= 100_000_000,
        -100_000_000 <= rect.top <= 100_000_000,
        -100_000_000 <= rect.bottom <= 100_000_000,
        -100_000_000 <= width <= 100_000_000,
        -100_000_000 <= height <= 100_000_000,
    ensures
        r == centered_spec(rect, width as int, height as int),
{
    let left = rect.left as i64 + div_trunc_exec(rect.right as i64 - rect.left as i64 - width as i64, 2);
    let top = rect.top as i64 + div_trunc_exec(rect.bottom as i64 - rect.top as i64 - height as i64, 2);
    Rect {
        left: left as i32,
        top: top as i32,
        right: (left + width as i64) as i32,
        bottom: (top + height as i64) as i32,
    }
}

} // verus!
