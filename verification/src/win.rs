//! Window message parameters.
use vstd::prelude::*;

verus! {

/// A 16-bit word read as a signed number.
pub open spec fn signed16(v: int) -> int {
    if v >= 0x8000 {
        v - 0x10000
    } else {
        v
    }
}

/// The point packed in a mouse message's `lParam`: the low word is x, the
/// next word y, each a signed 16-bit number.
pub fn point_from_lparam(value: isize) -> (r: (i32, i32))
    ensures
        r.0 == signed16((value & 0xffff) as int),
        r.1 == signed16(((value >> 16) & 0xffff) as int),
        -32768 <= r.0 <= 32767,
        -32768 <= r.1 <= 32767,
{
    let low = value & 0xffff;
    let high = (value >> 16) & 0xffff;
    assert(0 <= low <= 0xffff) by (bit_vector)
        requires
            low == value & 0xffff,
    ;
    assert(0 <= high <= 0xffff) by (bit_vector)
        requires
            high == (value >> 16) & 0xffff,
    ;
    let x = if low >= 0x8000 {
        (low - 0x10000) as i32
    } else {
        low as i32
    };
    let y = if high >= 0x8000 {
        (high - 0x10000) as i32
    } else {
        high as i32
    };
    (x, y)
}

/// The wheel movement of a mouse-wheel message: the high word of the low
/// 32 bits of `wParam`, as a signed 16-bit number.
pub fn wheel_delta(wparam: usize) -> (r: i32)
    ensures
        r == signed16(((wparam >> 16usize) & 0xffff) as int),
{
    let word = (wparam >> 16usize) & 0xffff;
    assert(word <= 0xffff) by (bit_vector)
        requires
            word == (wparam >> 16usize) & 0xffff,
    ;
    if word >= 0x8000 {
        (word as i32) - 0x10000
    } else {
        word as i32
    }
}

} // verus!
