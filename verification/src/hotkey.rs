//! Global hotkey rules: which keys may be captured, which combinations are
//! accepted, and how a combination is shown to the user.
use crate::config::HotkeyConfig;
use vstd::prelude::*;
use vstd::string::StringExecFns;

verus! {

/// Windows modifier flag for Alt.
pub const MOD_ALT: u32 = 0x0001;

/// Windows modifier flag for Ctrl.
pub const MOD_CONTROL: u32 = 0x0002;

/// Windows modifier flag for Shift.
pub const MOD_SHIFT: u32 = 0x0004;

/// Windows modifier flag for the Windows key.
pub const MOD_WIN: u32 = 0x0008;

/// Windows virtual-key code of F1.
pub const VK_F1: u32 = 0x70;

/// Windows virtual-key code of F24.
pub const VK_F24: u32 = 0x87;

/// Flag that keeps a held hotkey from repeating.
pub const MOD_NOREPEAT_VALUE: u32 = 0x4000;

/// Shift, Ctrl, Alt, the two Windows keys and their left/right variants.
pub open spec fn modifier_key(key: u32) -> bool {
    key == 0x10 || key == 0x11 || key == 0x12 || key == 0x5B || key == 0x5C || (0xA0 <= key
        <= 0xA5)
}

/// A letter `A`-`Z`.
pub open spec fn letter_key(key: u32) -> bool {
    0x41 <= key <= 0x5A
}

/// A digit `0`-`9`.
pub open spec fn digit_key(key: u32) -> bool {
    0x30 <= key <= 0x39
}

/// A function key `F1`-`F24`.
pub open spec fn function_key(key: u32) -> bool {
    VK_F1 <= key <= VK_F24
}

/// Keys a hotkey may end in: letters, digits and function keys.
pub open spec fn supported_key(key: u32) -> bool {
    letter_key(key) || digit_key(key) || function_key(key)
}

/// A hotkey holds at least one modifier and a supported key.
pub open spec fn valid_hotkey(h: HotkeyConfig) -> bool {
    h.modifiers & 0xF != 0 && supported_key(h.key)
}

/// The decimal digits of `n`, for `1 <= n <= 99`.
pub open spec fn decimal(n: int) -> Seq<char> {
    if n < 10 {
        seq![(48 + n) as char]
    } else {
        seq![(48 + n / 10) as char, (48 + n % 10) as char]
    }
}

/// Name of a key: its letter or digit, `F` and its number, or "unknown".
pub open spec fn key_label(key: u32) -> Seq<char> {
    if letter_key(key) || digit_key(key) {
        seq![key as char]
    } else if function_key(key) {
        seq!['F'] + decimal(key - VK_F1 + 1)
    } else {
        seq!['未', '知']
    }
}

/// `label + " + "` when `flag` is among the modifiers, else nothing.
pub open spec fn modifier_part(modifiers: u32, flag: u32, label: Seq<char>) -> Seq<char> {
    if modifiers & flag != 0 {
        label + seq![' ', '+', ' ']
    } else {
        seq![]
    }
}

/// The hotkey as shown to the user: Ctrl, Alt, Shift, Win in that order,
/// then the key, joined by " + ".
pub open spec fn hotkey_label(h: HotkeyConfig) -> Seq<char> {
    modifier_part(h.modifiers, MOD_CONTROL, seq!['C', 't', 'r', 'l']) + modifier_part(
        h.modifiers,
        MOD_ALT,
        seq!['A', 'l', 't'],
    ) + modifier_part(h.modifiers, MOD_SHIFT, seq!['S', 'h', 'i', 'f', 't']) + modifier_part(
        h.modifiers,
        MOD_WIN,
        seq!['W', 'i', 'n'],
    ) + key_label(h.key)
}

/// Whether a key is a modifier key on its own (never captured as the hotkey's key).
pub fn is_modifier(key: u32) -> (r: bool)
    ensures
        r == modifier_key(key),
{
    key == 0x10 || key == 0x11 || key == 0x12 || key == 0x5B || key == 0x5C || (0xA0 <= key
        && key <= 0xA5)
}

/// Whether a key may end a hotkey.
pub fn is_supported_key(key: u32) -> (r: bool)
    ensures
        r == supported_key(key),
{
    (0x41 <= key && key <= 0x5A) || (0x30 <= key && key <= 0x39) || (VK_F1 <= key && key
        <= VK_F24)
}

/// Whether a combination can be registered: a modifier and a supported key.
pub fn is_valid(hotkey: &HotkeyConfig) -> (r: bool)
    ensures
        r == valid_hotkey(*hotkey),
{
    assert((1u32 | 2u32 | 4u32 | 8u32) == 0xFu32) by (bit_vector);
    hotkey.modifiers & (MOD_ALT | MOD_CONTROL | MOD_SHIFT | MOD_WIN) != 0 && is_supported_key(
        hotkey.key,
    )
}

/// The combination as shown in the tray tip and the settings page.
pub fn display(hotkey: &HotkeyConfig) -> (r: String)
    ensures
        r@ == hotkey_label(*hotkey),
{
    let mut text = String::new();
    let ghost m = hotkey.modifiers;
    if hotkey.modifiers & MOD_CONTROL != 0 {
        text.append("Ctrl + ");
    }
    proof {
        reveal_strlit("Ctrl + ");
        assert(text@ == modifier_part(m, MOD_CONTROL, seq!['C', 't', 'r', 'l']));
    }
    let ghost after_ctrl = text@;
    if hotkey.modifiers & MOD_ALT != 0 {
        text.append("Alt + ");
    }
    proof {
        reveal_strlit("Alt + ");
        assert(text@ == after_ctrl + modifier_part(m, MOD_ALT, seq!['A', 'l', 't']));
    }
    let ghost after_alt = text@;
    if hotkey.modifiers & MOD_SHIFT != 0 {
        text.append("Shift + ");
    }
    proof {
        reveal_strlit("Shift + ");
        assert(text@ == after_alt + modifier_part(m, MOD_SHIFT, seq!['S', 'h', 'i', 'f', 't']));
    }
    let ghost after_shift = text@;
    if hotkey.modifiers & MOD_WIN != 0 {
        text.append("Win + ");
    }
    proof {
        reveal_strlit("Win + ");
        assert(text@ == after_shift + modifier_part(m, MOD_WIN, seq!['W', 'i', 'n']));
    }
    let name = key_name(hotkey.key);
    text.append(name.as_str());
    text
}

/// Name of a key as shown in a hotkey.
pub fn key_name(key: u32) -> (r: String)
    ensures
        r@ == key_label(key),
{
    let mut text = String::new();
    if (0x41 <= key && key <= 0x5A) || (0x30 <= key && key <= 0x39) {
        let c = char_of_ascii(key);
        crate::text::push_char(&mut text, c);
        assert(text@ =~= key_label(key));
    } else if VK_F1 <= key && key <= VK_F24 {
        let n = key - VK_F1 + 1;
        crate::text::push_char(&mut text, 'F');
        if n >= 10 {
            crate::text::push_char(&mut text, char_of_ascii(0x30 + n / 10));
            crate::text::push_char(&mut text, char_of_ascii(0x30 + n % 10));
        } else {
            crate::text::push_char(&mut text, char_of_ascii(0x30 + n));
        }
        assert(text@ =~= key_label(key));
    } else {
        text.append("未知");
        proof {
            reveal_strlit("未知");
        }
        assert(text@ =~= key_label(key));
    }
    text
}

/// The character with an ASCII code.
fn char_of_ascii(code: u32) -> (c: char)
    requires
        code < 0x80,
    ensures
        c == code as char,
{
    let b: u8 = code as u8;
    crate::text::char_from_ascii(b)
}

} // verus!
