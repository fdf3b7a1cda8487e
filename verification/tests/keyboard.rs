use nosso_os::keyboard::{scancode_available, Keyboard};

#[test]
fn new_keyboard_has_nothing_pressed() {
    let k = Keyboard::new();
    assert!(!k.shift_pressed && !k.caps_lock && !k.ctrl_pressed && !k.extended_scancode);
}

#[test]
fn letters_follow_shift_xor_caps_lock() {
    let mut k = Keyboard::new();
    assert_eq!(k.scancode_to_ascii(0x1E), Some('a'));
    assert!(k.update_modifiers(0x2A));
    assert_eq!(k.scancode_to_ascii(0x1E), Some('A'));
    assert!(k.update_modifiers(0x3A));
    assert_eq!(k.scancode_to_ascii(0x1E), Some('a'));
    assert!(k.update_modifiers(0xAA));
    assert_eq!(k.scancode_to_ascii(0x1E), Some('A'));
    assert_eq!(k.scancode_to_ascii(0x32), Some('M'));
}

#[test]
fn digits_and_symbols_follow_shift_only() {
    let mut k = Keyboard::new();
    assert_eq!(k.scancode_to_ascii(0x02), Some('1'));
    assert_eq!(k.scancode_to_ascii(0x28), Some('\''));
    k.update_modifiers(0x3A);
    assert_eq!(k.scancode_to_ascii(0x02), Some('1'));
    k.update_modifiers(0x36);
    assert_eq!(k.scancode_to_ascii(0x02), Some('!'));
    assert_eq!(k.scancode_to_ascii(0x0B), Some(')'));
    assert_eq!(k.scancode_to_ascii(0x28), Some('"'));
    assert_eq!(k.scancode_to_ascii(0x29), Some('~'));
    assert_eq!(k.scancode_to_ascii(0x39), Some(' '));
}

#[test]
fn unknown_codes_and_releases_type_nothing() {
    let k = Keyboard::new();
    assert_eq!(k.scancode_to_ascii(0x01), None);
    assert_eq!(k.scancode_to_ascii(0x1C), None);
    assert_eq!(k.scancode_to_ascii(0x9E), None);
    assert_eq!(k.scancode_to_ascii(0x2A), None);
}

#[test]
fn modifiers_are_recognized() {
    let mut k = Keyboard::new();
    assert!(k.update_modifiers(0x1D));
    assert!(k.ctrl_pressed);
    assert!(k.update_modifiers(0x9D));
    assert!(!k.ctrl_pressed);
    assert!(k.update_modifiers(0x36));
    assert!(k.shift_pressed);
    assert!(k.update_modifiers(0xB6));
    assert!(!k.shift_pressed);
    assert!(!k.update_modifiers(0x1E));
}

#[test]
fn caps_lock_twice_is_off_again() {
    let mut k = Keyboard::new();
    k.update_modifiers(0x3A);
    assert!(k.caps_lock);
    k.update_modifiers(0x3A);
    assert!(!k.caps_lock);
}

#[test]
fn extended_prefix_is_consumed_by_the_next_code() {
    let mut k = Keyboard::new();
    assert!(!k.is_extended(0x48));
    assert_eq!(k.take_extended(0x48), None);
    assert!(k.is_extended(0xE0));
    assert!(k.extended_scancode);
    assert_eq!(k.take_extended(0x48), Some(0x48));
    assert!(!k.extended_scancode);
    k.is_extended(0xE0);
    assert_eq!(k.take_extended(0xC8), None);
    assert!(!k.extended_scancode);
}

#[test]
fn status_bit_zero_means_data_waiting() {
    assert!(scancode_available(0x01));
    assert!(scancode_available(0xFF));
    assert!(!scancode_available(0x02));
    assert!(!scancode_available(0x00));
}
