use key_gateway::error::InputError;
use key_gateway::key::{get_key, try_get_key, Key, KEY_COUNT};

fn table() -> Vec<Key> {
    vec![
        Key::Alt,
        Key::Backspace,
        Key::CapsLock,
        Key::Control,
        Key::Delete,
        Key::DownArrow,
        Key::End,
        Key::Escape,
        Key::F1,
        Key::F10,
        Key::F11,
        Key::F12,
        Key::F2,
        Key::F3,
        Key::F4,
        Key::F5,
        Key::F6,
        Key::F7,
        Key::F8,
        Key::F9,
        Key::Home,
        Key::LeftArrow,
        Key::Meta,
        Key::Option,
        Key::PageDown,
        Key::PageUp,
        Key::Return,
        Key::RightArrow,
        Key::Shift,
        Key::Space,
        Key::Tab,
        Key::UpArrow,
        Key::A,
        Key::B,
        Key::C,
        Key::D,
        Key::E,
        Key::F,
        Key::G,
        Key::H,
        Key::I,
        Key::J,
        Key::K,
        Key::L,
        Key::M,
        Key::N,
        Key::O,
        Key::P,
        Key::Q,
        Key::R,
        Key::S,
        Key::T,
        Key::U,
        Key::V,
        Key::W,
        Key::X,
        Key::Y,
        Key::Z,
    ]
}

#[test]
fn named_codes_give_their_keys() {
    assert_eq!(get_key(0), Key::Alt);
    assert_eq!(get_key(26), Key::Return);
    assert_eq!(get_key(32), Key::A);
    assert_eq!(get_key(57), Key::Z);
}

#[test]
fn every_code_gives_the_key_of_the_enumeration() {
    let expected = table();
    assert_eq!(expected.len(), 58);
    assert_eq!(KEY_COUNT, 58);
    for code in 0..58 {
        assert_eq!(get_key(code), expected[code as usize], "code {}", code);
        assert_eq!(try_get_key(code), Ok(expected[code as usize]), "code {}", code);
    }
}

#[test]
fn function_keys_are_ordered_by_name_not_by_number() {
    assert_eq!(get_key(8), Key::F1);
    assert_eq!(get_key(9), Key::F10);
    assert_eq!(get_key(10), Key::F11);
    assert_eq!(get_key(11), Key::F12);
    assert_eq!(get_key(12), Key::F2);
    assert_eq!(get_key(19), Key::F9);
    assert_eq!(get_key(37), Key::F);
}

#[test]
fn no_two_codes_give_the_same_key() {
    for a in 0..58 {
        for b in 0..58 {
            if a != b {
                assert_ne!(get_key(a), get_key(b), "codes {} and {}", a, b);
            }
        }
    }
}

#[test]
fn codes_next_to_the_range_are_rejected() {
    assert_eq!(try_get_key(-1), Err(InputError::InvalidKeyCode));
    assert_eq!(try_get_key(58), Err(InputError::InvalidKeyCode));
}

#[test]
fn codes_far_from_the_range_are_rejected() {
    assert_eq!(try_get_key(i32::MIN), Err(InputError::InvalidKeyCode));
    assert_eq!(try_get_key(i32::MAX), Err(InputError::InvalidKeyCode));
    assert_eq!(try_get_key(256), Err(InputError::InvalidKeyCode));
    assert_eq!(try_get_key(-58), Err(InputError::InvalidKeyCode));
}

#[test]
fn the_ends_of_the_range_are_accepted() {
    assert_eq!(try_get_key(0), Ok(Key::Alt));
    assert_eq!(try_get_key(57), Ok(Key::Z));
}
