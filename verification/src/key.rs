//! The key code enumeration: the integers that callers send and the keys they denote.
//!
//! Callers hard-code these integers, so the association of code and key is fixed:
//! it is stated once, as [`key_table`], and everything else is proved against it.

use vstd::prelude::*;
use crate::error::InputError;

verus! {

/// A symbolic key, as the injection mechanism understands it.
#[derive(Clone, Copy, Debug, PartialEq, Eq, Hash, Structural)]
pub enum Key {
    Alt,
    Backspace,
    CapsLock,
    Control,
    Delete,
    DownArrow,
    End,
    Escape,
    F1,
    F10,
    F11,
    F12,
    F2,
    F3,
    F4,
    F5,
    F6,
    F7,
    F8,
    F9,
    Home,
    LeftArrow,
    Meta,
    Option,
    PageDown,
    PageUp,
    Return,
    RightArrow,
    Shift,
    Space,
    Tab,
    UpArrow,
    A,
    B,
    C,
    D,
    E,
    F,
    G,
    H,
    I,
    J,
    K,
    L,
    M,
    N,
    O,
    P,
    Q,
    R,
    S,
    T,
    U,
    V,
    W,
    X,
    Y,
    Z,
}

/// The number of key codes. The codes are `0 ..= KEY_COUNT - 1`.
pub const KEY_COUNT: i32 = 58;

/// The keys in the order of their codes: the key of code `c` stands at index `c`.
const KEYS: [Key; 58] = [
    Key::Alt, Key::Backspace, Key::CapsLock, Key::Control, // 0..=3
    Key::Delete, Key::DownArrow, Key::End, Key::Escape, // 4..=7
    Key::F1, Key::F10, Key::F11, Key::F12, // 8..=11
    Key::F2, Key::F3, Key::F4, Key::F5, // 12..=15
    Key::F6, Key::F7, Key::F8, Key::F9, // 16..=19
    Key::Home, Key::LeftArrow, Key::Meta, Key::Option, // 20..=23
    Key::PageDown, Key::PageUp, Key::Return, Key::RightArrow, // 24..=27
    Key::Shift, Key::Space, Key::Tab, Key::UpArrow, // 28..=31
    Key::A, Key::B, Key::C, Key::D, // 32..=35
    Key::E, Key::F, Key::G, Key::H, // 36..=39
    Key::I, Key::J, Key::K, Key::L, // 40..=43
    Key::M, Key::N, Key::O, Key::P, // 44..=47
    Key::Q, Key::R, Key::S, Key::T, // 48..=51
    Key::U, Key::V, Key::W, Key::X, // 52..=55
    Key::Y, Key::Z, // 56..=57
];

/// The enumeration itself: the key of code `c` stands at index `c`.
pub open spec fn key_table() -> Seq<Key> {
    seq![
        Key::Alt, Key::Backspace, Key::CapsLock, Key::Control, // 0..=3
        Key::Delete, Key::DownArrow, Key::End, Key::Escape, // 4..=7
        Key::F1, Key::F10, Key::F11, Key::F12, // 8..=11
        Key::F2, Key::F3, Key::F4, Key::F5, // 12..=15
        Key::F6, Key::F7, Key::F8, Key::F9, // 16..=19
        Key::Home, Key::LeftArrow, Key::Meta, Key::Option, // 20..=23
        Key::PageDown, Key::PageUp, Key::Return, Key::RightArrow, // 24..=27
        Key::Shift, Key::Space, Key::Tab, Key::UpArrow, // 28..=31
        Key::A, Key::B, Key::C, Key::D, // 32..=35
        Key::E, Key::F, Key::G, Key::H, // 36..=39
        Key::I, Key::J, Key::K, Key::L, // 40..=43
        Key::M, Key::N, Key::O, Key::P, // 44..=47
        Key::Q, Key::R, Key::S, Key::T, // 48..=51
        Key::U, Key::V, Key::W, Key::X, // 52..=55
        Key::Y, Key::Z, // 56..=57
    ]
}

/// Whether `code` denotes a key.
pub open spec fn is_key_code(code: int) -> bool {
    0 <= code <= 57
}

/// The key that `code` denotes. Meaningful for the codes of [`is_key_code`] only.
pub open spec fn translate(code: int) -> Key
    recommends
        is_key_code(code),
{
    key_table()[code]
}

/// Looks up the key of a code that is known to be in range.
pub fn get_key(code: i32) -> (key: Key)
    requires
        is_key_code(code as int),
    ensures
        key == translate(code as int),
{
    KEYS[code as usize]
}

/// Looks up the key of a code from an untrusted caller: a code outside the
/// enumeration is answered with [`InputError::InvalidKeyCode`], never with a key.
pub fn try_get_key(code: i32) -> (result: Result<Key, InputError>)
    ensures
        is_key_code(code as int) ==> result == Ok::<Key, InputError>(translate(code as int)),
        !is_key_code(code as int) ==> result == Err::<Key, InputError>(InputError::InvalidKeyCode),
{
    if 0 <= code && code < KEY_COUNT {
        Ok(get_key(code))
    } else {
        Err(InputError::InvalidKeyCode)
    }
}

/// No two codes denote the same key.
pub proof fn translate_is_injective(a: int, b: int)
    requires
        is_key_code(a),
        is_key_code(b),
        translate(a) == translate(b),
    ensures
        a == b,
{
}

} // verus!
