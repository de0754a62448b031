//! Layout-independent keyboard input from virtual key codes.
//!
//! A console reports both the character that the active keyboard layout
//! produces and the virtual key code of the physical key. The code of the M key
//! is the same under every layout, so shortcuts built from it work everywhere.

use crate::keys::{KeyCode, KeyModifiers};
use vstd::prelude::*;

verus! {

/// The logical key of a virtual key code. Digits, letters and function keys
/// follow their codes; Shift turns Tab into BackTab.
pub open spec fn vk_meaning(vk: u16, shift: bool) -> Option<KeyCode> {
    if vk == 0x0D {
        Some(KeyCode::Enter)
    } else if vk == 0x1B {
        Some(KeyCode::Esc)
    } else if vk == 0x09 {
        Some(
            if shift {
                KeyCode::BackTab
            } else {
                KeyCode::Tab
            },
        )
    } else if vk == 0x08 {
        Some(KeyCode::Backspace)
    } else if vk == 0x2D {
        Some(KeyCode::Insert)
    } else if vk == 0x2E {
        Some(KeyCode::Delete)
    } else if vk == 0x26 {
        Some(KeyCode::Up)
    } else if vk == 0x28 {
        Some(KeyCode::Down)
    } else if vk == 0x25 {
        Some(KeyCode::Left)
    } else if vk == 0x27 {
        Some(KeyCode::Right)
    } else if vk == 0x24 {
        Some(KeyCode::Home)
    } else if vk == 0x23 {
        Some(KeyCode::End)
    } else if vk == 0x21 {
        Some(KeyCode::PageUp)
    } else if vk == 0x22 {
        Some(KeyCode::PageDown)
    } else if 0x30 <= vk <= 0x39 {
        Some(KeyCode::Char(('0' as u32 + vk - 0x30) as char))
    } else if 0x41 <= vk <= 0x5A {
        Some(KeyCode::Char(('a' as u32 + vk - 0x41) as char))
    } else if 0x70 <= vk <= 0x87 {
        Some(KeyCode::F((vk - 0x70 + 1) as u8))
    } else {
        None
    }
}

/// Maps a virtual key code to a logical key code. Letters and digits are
/// derived from their code numbers: physical positions, identical on every
/// keyboard language.
pub fn map_vk(vk: u16, shift: bool) -> (code: Option<KeyCode>)
    ensures
        code == vk_meaning(vk, shift),
{
    let code = match vk {
        0x0D => KeyCode::Enter,
        0x1B => KeyCode::Esc,
        0x09 => {
            if shift {
                KeyCode::BackTab
            } else {
                KeyCode::Tab
            }
        },
        0x08 => KeyCode::Backspace,
        0x2D => KeyCode::Insert,
        0x2E => KeyCode::Delete,
        0x26 => KeyCode::Up,
        0x28 => KeyCode::Down,
        0x25 => KeyCode::Left,
        0x27 => KeyCode::Right,
        0x24 => KeyCode::Home,
        0x23 => KeyCode::End,
        0x21 => KeyCode::PageUp,
        0x22 => KeyCode::PageDown,
        _ => {
            if 0x30 <= vk && vk <= 0x39 {
                KeyCode::Char((48 + (vk - 0x30) as u8) as char)
            } else if 0x41 <= vk && vk <= 0x5A {
                KeyCode::Char((97 + (vk - 0x41) as u8) as char)
            } else if 0x70 <= vk && vk <= 0x87 {
                KeyCode::F((vk - 0x70) as u8 + 1)
            } else {
                return None;
            }
        },
    };
    Some(code)
}

/// The control-key state bit of the Shift key.
pub const SHIFT_PRESSED: u32 = 0x0010;

/// The control-key state bits of both Ctrl keys.
pub const CTRL_PRESSED: u32 = 0x000C;

/// The control-key state bits of both Alt keys.
pub const ALT_PRESSED: u32 = 0x0003;

/// The modifiers that a console's control-key state stands for.
pub open spec fn modifiers_in(state: u32) -> KeyModifiers {
    KeyModifiers {
        shift: state & SHIFT_PRESSED != 0,
        control: state & CTRL_PRESSED != 0,
        alt: state & ALT_PRESSED != 0,
        other: false,
    }
}

/// The modifiers that a console's control-key state stands for.
pub fn modifiers_of(state: u32) -> (m: KeyModifiers)
    ensures
        m.shift == (state & SHIFT_PRESSED != 0),
        m.control == (state & CTRL_PRESSED != 0),
        m.alt == (state & ALT_PRESSED != 0),
        !m.other,
        m == modifiers_in(state),
{
    KeyModifiers {
        shift: state & SHIFT_PRESSED != 0,
        control: state & CTRL_PRESSED != 0,
        alt: state & ALT_PRESSED != 0,
        other: false,
    }
}

/// Different virtual key codes with a meaning stand for different keys.
pub proof fn physical_keys_are_told_apart(a: u16, b: u16, shift: bool)
    requires
        vk_meaning(a, shift) is Some,
        vk_meaning(a, shift) == vk_meaning(b, shift),
    ensures
        a == b,
{
}

/// Letters, digits and function keys follow their codes, one after the other, and
/// Shift changes nothing but Tab.
pub proof fn codes_follow_one_another(a: u16, b: u16, shift: bool)
    ensures
        0x41 <= a <= b <= 0x5A ==> ({
            let (x, y) = (vk_meaning(a, shift), vk_meaning(b, shift));
            &&& x is Some && x->0 is Char && y is Some && y->0 is Char
            &&& y->0->Char_0 as u32 - x->0->Char_0 as u32 == b - a
            &&& 'a' <= x->0->Char_0 <= 'z'
        }),
        0x30 <= a <= b <= 0x39 ==> ({
            let (x, y) = (vk_meaning(a, shift), vk_meaning(b, shift));
            &&& x is Some && x->0 is Char && y is Some && y->0 is Char
            &&& y->0->Char_0 as u32 - x->0->Char_0 as u32 == b - a
            &&& '0' <= x->0->Char_0 <= '9'
        }),
        0x70 <= a <= b <= 0x87 ==> ({
            let (x, y) = (vk_meaning(a, shift), vk_meaning(b, shift));
            &&& x is Some && x->0 is F && y is Some && y->0 is F
            &&& y->0->F_0 - x->0->F_0 == b - a
            &&& 1 <= x->0->F_0 <= 24
        }),
        a != 0x09 ==> vk_meaning(a, true) == vk_meaning(a, false),
        vk_meaning(0x09, true) == Some(KeyCode::BackTab),
        vk_meaning(0x09, false) == Some(KeyCode::Tab),
{
}

/// The keys that edit and move have their codes.
pub proof fn editing_keys_have_their_codes(vk: u16, shift: bool)
    ensures
        vk_meaning(vk, shift) == Some(KeyCode::Enter) <==> vk == 0x0D,
        vk_meaning(vk, shift) == Some(KeyCode::Esc) <==> vk == 0x1B,
        vk_meaning(vk, shift) == Some(KeyCode::Backspace) <==> vk == 0x08,
        vk_meaning(vk, shift) == Some(KeyCode::Insert) <==> vk == 0x2D,
        vk_meaning(vk, shift) == Some(KeyCode::Delete) <==> vk == 0x2E,
        vk_meaning(vk, shift) == Some(KeyCode::Left) <==> vk == 0x25,
        vk_meaning(vk, shift) == Some(KeyCode::Up) <==> vk == 0x26,
        vk_meaning(vk, shift) == Some(KeyCode::Right) <==> vk == 0x27,
        vk_meaning(vk, shift) == Some(KeyCode::Down) <==> vk == 0x28,
        vk_meaning(vk, shift) == Some(KeyCode::PageUp) <==> vk == 0x21,
        vk_meaning(vk, shift) == Some(KeyCode::PageDown) <==> vk == 0x22,
        vk_meaning(vk, shift) == Some(KeyCode::End) <==> vk == 0x23,
        vk_meaning(vk, shift) == Some(KeyCode::Home) <==> vk == 0x24,
{
}

/// Either Alt key, either Ctrl key and Shift have their bits, and no other bit
/// matters.
pub proof fn modifiers_have_their_bits(state: u32)
    ensures
        modifiers_in(state).alt <==> state & 1 != 0 || state & 2 != 0,
        modifiers_in(state).control <==> state & 4 != 0 || state & 8 != 0,
        modifiers_in(state).shift <==> state & 16 != 0,
        modifiers_in(state) == modifiers_in(state & 31),
{
    assert(state & 0x0003 != 0 <==> state & 1 != 0 || state & 2 != 0) by (bit_vector);
    assert(state & 0x000C != 0 <==> state & 4 != 0 || state & 8 != 0) by (bit_vector);
    assert((state & 31) & 0x0010 == state & 0x0010 && (state & 31) & 0x000C == state & 0x000C && (
    state & 31) & 0x0003 == state & 0x0003) by (bit_vector);
}

} // verus!
