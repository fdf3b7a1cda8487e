//! Decoding of PS/2 scan code set 1 from the keyboard controller.

use vstd::prelude::*;

verus! {

/// State of the modifier keys and of a pending `0xE0` prefix.
#[derive(Clone, Copy, Debug)]
pub struct Keyboard {
    pub shift_pressed: bool,
    pub caps_lock: bool,
    pub ctrl_pressed: bool,
    pub extended_scancode: bool,
}

/// The letter keys: scan code to (lower case, upper case).
pub open spec fn letter_key(scancode: u8) -> Option<(char, char)> {
    match scancode {
        0x10 => Some(('q', 'Q')),
        0x11 => Some(('w', 'W')),
        0x12 => Some(('e', 'E')),
        0x13 => Some(('r', 'R')),
        0x14 => Some(('t', 'T')),
        0x15 => Some(('y', 'Y')),
        0x16 => Some(('u', 'U')),
        0x17 => Some(('i', 'I')),
        0x18 => Some(('o', 'O')),
        0x19 => Some(('p', 'P')),
        0x1E => Some(('a', 'A')),
        0x1F => Some(('s', 'S')),
        0x20 => Some(('d', 'D')),
        0x21 => Some(('f', 'F')),
        0x22 => Some(('g', 'G')),
        0x23 => Some(('h', 'H')),
        0x24 => Some(('j', 'J')),
        0x25 => Some(('k', 'K')),
        0x26 => Some(('l', 'L')),
        0x2C => Some(('z', 'Z')),
        0x2D => Some(('x', 'X')),
        0x2E => Some(('c', 'C')),
        0x2F => Some(('v', 'V')),
        0x30 => Some(('b', 'B')),
        0x31 => Some(('n', 'N')),
        0x32 => Some(('m', 'M')),
        _ => None,
    }
}

/// The digit and punctuation keys: scan code to (plain, with Shift).
pub open spec fn symbol_key(scancode: u8) -> Option<(char, char)> {
    match scancode {
        0x02 => Some(('1', '!')),
        0x03 => Some(('2', '@')),
        0x04 => Some(('3', '#')),
        0x05 => Some(('4', '$')),
        0x06 => Some(('5', '%')),
        0x07 => Some(('6', '^')),
        0x08 => Some(('7', '&')),
        0x09 => Some(('8', '*')),
        0x0A => Some(('9', '(')),
        0x0B => Some(('0', ')')),
        0x0C => Some(('-', '_')),
        0x0D => Some(('=', '+')),
        0x33 => Some((',', '<')),
        0x34 => Some(('.', '>')),
        0x35 => Some(('/', '?')),
        0x1A => Some(('[', '{')),
        0x1B => Some((']', '}')),
        0x27 => Some((';', ':')),
        0x28 => Some(('\'', '"')),
        0x29 => Some(('`', '~')),
        _ => None,
    }
}

/// The character a key press produces: letters are upper case when exactly
/// one of Shift and Caps Lock is on, digits and punctuation follow Shift
/// alone, scan code `0x39` is the space bar; any other code gives none.
pub open spec fn key_char(keyboard: Keyboard, scancode: u8) -> Option<char> {
    match letter_key(scancode) {
        Some(pair) => Some(if keyboard.shift_pressed != keyboard.caps_lock {
            pair.1
        } else {
            pair.0
        }),
        None => if scancode == 0x39 {
            Some(' ')
        } else {
            match symbol_key(scancode) {
                Some(pair) => Some(if keyboard.shift_pressed {
                    pair.1
                } else {
                    pair.0
                }),
                None => None,
            }
        },
    }
}

/// A modifier scan code and the keyboard state it leads to: left or right
/// Shift pressed (`0x2A`, `0x36`) or released (`0xAA`, `0xB6`), left Ctrl
/// pressed (`0x1D`) or released (`0x9D`), Caps Lock (`0x3A`) toggled.
pub open spec fn modifier_applied(keyboard: Keyboard, scancode: u8) -> Option<Keyboard> {
    if scancode == 0x2A || scancode == 0x36 {
        Some(Keyboard { shift_pressed: true, ..keyboard })
    } else if scancode == 0xAA || scancode == 0xB6 {
        Some(Keyboard { shift_pressed: false, ..keyboard })
    } else if scancode == 0x1D {
        Some(Keyboard { ctrl_pressed: true, ..keyboard })
    } else if scancode == 0x9D {
        Some(Keyboard { ctrl_pressed: false, ..keyboard })
    } else if scancode == 0x3A {
        Some(Keyboard { caps_lock: !keyboard.caps_lock, ..keyboard })
    } else {
        None
    }
}

/// Whether a scan code reports a key release (its top bit set).
pub open spec fn is_release(scancode: u8) -> bool {
    scancode >= 0x80
}

/// Whether the status byte of the keyboard controller says a scan code is
/// waiting in its output buffer (bit 0).
pub fn scancode_available(status: u8) -> (available: bool)
    ensures
        available == (status % 2 == 1),
{
    assert(status & 1 != 0 <==> status % 2 == 1) by (bit_vector);
    status & 1 != 0
}

impl Keyboard {
    /// No modifier held, Caps Lock off, no prefix pending.
    pub fn new() -> (keyboard: Self)
        ensures
            keyboard == (Keyboard {
                shift_pressed: false,
                caps_lock: false,
                ctrl_pressed: false,
                extended_scancode: false,
            }),
    {
        Keyboard { shift_pressed: false, caps_lock: false, ctrl_pressed: false, extended_scancode: false }
    }

    /// Applies a modifier scan code; returns whether `scancode` was one.
    /// See `modifier_applied`.
    pub fn update_modifiers(&mut self, scancode: u8) -> (handled: bool)
        ensures
            handled == modifier_applied(*old(self), scancode) is Some,
            handled ==> *final(self) == modifier_applied(*old(self), scancode).unwrap(),
            !handled ==> *final(self) == *old(self),
    {
        if scancode == 0x2A || scancode == 0x36 {
            self.shift_pressed = true;
            return true;
        }
        if scancode == 0xAA || scancode == 0xB6 {
            self.shift_pressed = false;
            return true;
        }
        if scancode == 0x1D {
            self.ctrl_pressed = true;
            return true;
        }
        if scancode == 0x9D {
            self.ctrl_pressed = false;
            return true;
        }
        if scancode == 0x3A {
            self.caps_lock = !self.caps_lock;
            return true;
        }
        false
    }

    /// The character a key press produces; see `key_char`.
    pub fn scancode_to_ascii(&self, scancode: u8) -> (c: Option<char>)
        ensures
            c == key_char(*self, scancode),
    {
        let uppercase = self.shift_pressed ^ self.caps_lock;
        match scancode {
            0x02 => Some(if self.shift_pressed { '!' } else { '1' }),
            0x03 => Some(if self.shift_pressed { '@' } else { '2' }),
            0x04 => Some(if self.shift_pressed { '#' } else { '3' }),
            0x05 => Some(if self.shift_pressed { '$' } else { '4' }),
            0x06 => Some(if self.shift_pressed { '%' } else { '5' }),
            0x07 => Some(if self.shift_pressed { '^' } else { '6' }),
            0x08 => Some(if self.shift_pressed { '&' } else { '7' }),
            0x09 => Some(if self.shift_pressed { '*' } else { '8' }),
            0x0A => Some(if self.shift_pressed { '(' } else { '9' }),
            0x0B => Some(if self.shift_pressed { ')' } else { '0' }),
            0x10 => Some(if uppercase { 'Q' } else { 'q' }),
            0x11 => Some(if uppercase { 'W' } else { 'w' }),
            0x12 => Some(if uppercase { 'E' } else { 'e' }),
            0x13 => Some(if uppercase { 'R' } else { 'r' }),
            0x14 => Some(if uppercase { 'T' } else { 't' }),
            0x15 => Some(if uppercase { 'Y' } else { 'y' }),
            0x16 => Some(if uppercase { 'U' } else { 'u' }),
            0x17 => Some(if uppercase { 'I' } else { 'i' }),
            0x18 => Some(if uppercase { 'O' } else { 'o' }),
            0x19 => Some(if uppercase { 'P' } else { 'p' }),
            0x1E => Some(if uppercase { 'A' } else { 'a' }),
            0x1F => Some(if uppercase { 'S' } else { 's' }),
            0x20 => Some(if uppercase { 'D' } else { 'd' }),
            0x21 => Some(if uppercase { 'F' } else { 'f' }),
            0x22 => Some(if uppercase { 'G' } else { 'g' }),
            0x23 => Some(if uppercase { 'H' } else { 'h' }),
            0x24 => Some(if uppercase { 'J' } else { 'j' }),
            0x25 => Some(if uppercase { 'K' } else { 'k' }),
            0x26 => Some(if uppercase { 'L' } else { 'l' }),
            0x2C => Some(if uppercase { 'Z' } else { 'z' }),
            0x2D => Some(if uppercase { 'X' } else { 'x' }),
            0x2E => Some(if uppercase { 'C' } else { 'c' }),
            0x2F => Some(if uppercase { 'V' } else { 'v' }),
            0x30 => Some(if uppercase { 'B' } else { 'b' }),
            0x31 => Some(if uppercase { 'N' } else { 'n' }),
            0x32 => Some(if uppercase { 'M' } else { 'm' }),
            0x39 => Some(' '),
            0x0C => Some(if self.shift_pressed { '_' } else { '-' }),
            0x0D => Some(if self.shift_pressed { '+' } else { '=' }),
            0x33 => Some(if self.shift_pressed { '<' } else { ',' }),
            0x34 => Some(if self.shift_pressed { '>' } else { '.' }),
            0x35 => Some(if self.shift_pressed { '?' } else { '/' }),
            0x1A => Some(if self.shift_pressed { '{' } else { '[' }),
            0x1B => Some(if self.shift_pressed { '}' } else { ']' }),
            0x27 => Some(if self.shift_pressed { ':' } else { ';' }),
            0x28 => Some(if self.shift_pressed { '"' } else { '\'' }),
            0x29 => Some(if self.shift_pressed { '~' } else { '`' }),
            _ => None,
        }
    }

    /// Records an `0xE0` prefix; returns whether `scancode` was one.
    pub fn is_extended(&mut self, scancode: u8) -> (prefix: bool)
        ensures
            prefix == (scancode == 0xE0),
            *final(self) == (if prefix {
                Keyboard { extended_scancode: true, ..*old(self) }
            } else {
                *old(self)
            }),
    {
        if scancode == 0xE0 {
            self.extended_scancode = true;
            return true;
        }
        false
    }

    /// After an `0xE0` prefix, consumes it and gives the scan code of the
    /// extended key if this is a press; releases and codes without a
    /// prefix give none.
    pub fn take_extended(&mut self, scancode: u8) -> (key: Option<u8>)
        ensures
            *final(self) == (Keyboard { extended_scancode: false, ..*old(self) }),
            key == (if old(self).extended_scancode && !is_release(scancode) {
                Some(scancode)
            } else {
                None
            }),
    {
        if !self.extended_scancode {
            return None;
        }
        self.extended_scancode = false;
        assert(scancode & 0x80 != 0 <==> scancode >= 0x80) by (bit_vector);
        if scancode & 0x80 != 0 {
            return None;
        }
        Some(scancode)
    }
}

/// Pressing and then releasing Shift (either one) leaves a keyboard whose
/// Shift was up as it was.
pub proof fn lemma_shift_press_release(keyboard: Keyboard, press: u8, release: u8)
    requires
        !keyboard.shift_pressed,
        press == 0x2A || press == 0x36,
        release == 0xAA || release == 0xB6,
    ensures
        modifier_applied(keyboard, press) is Some,
        modifier_applied(modifier_applied(keyboard, press).unwrap(), release) == Some(keyboard),
{
}

/// Pressing and then releasing Ctrl leaves a keyboard whose Ctrl was up as it was.
pub proof fn lemma_ctrl_press_release(keyboard: Keyboard)
    requires
        !keyboard.ctrl_pressed,
    ensures
        modifier_applied(modifier_applied(keyboard, 0x1D).unwrap(), 0x9D) == Some(keyboard),
{
}

/// Caps Lock twice changes nothing.
pub proof fn lemma_caps_lock_twice(keyboard: Keyboard)
    ensures
        modifier_applied(modifier_applied(keyboard, 0x3A).unwrap(), 0x3A) == Some(keyboard),
{
}

/// Modifier keys and key releases type nothing.
pub proof fn lemma_no_char_from_modifiers_or_releases(keyboard: Keyboard, scancode: u8)
    requires
        modifier_applied(keyboard, scancode) is Some || is_release(scancode),
    ensures
        key_char(keyboard, scancode) is None,
{
}

/// Letters are typed in upper case exactly when one of Shift and Caps Lock
/// is on, and every character typed is ASCII.
pub proof fn lemma_letter_case(keyboard: Keyboard, scancode: u8)
    ensures
        letter_key(scancode) matches Some(pair) ==> key_char(keyboard, scancode) == Some(
            if keyboard.shift_pressed != keyboard.caps_lock {
                pair.1
            } else {
                pair.0
            },
        ),
        key_char(keyboard, scancode) matches Some(c) ==> (c as u32) < 128,
{
}

/// `lower` as typed with this keyboard state: its upper-case form (32 lower
/// in ASCII) when exactly one of Shift and Caps Lock is on.
pub open spec fn letter_as_typed(keyboard: Keyboard, lower: char) -> char {
    if keyboard.shift_pressed != keyboard.caps_lock {
        ((lower as u32) - 32) as char
    } else {
        lower
    }
}

/// The letter keys follow the US-QWERTY rows of scan code set 1: codes
/// `0x10` to `0x19` are `qwertyuiop`, `0x1E` to `0x26` are `asdfghjkl` and
/// `0x2C` to `0x32` are `zxcvbnm`; the digit row `0x02` to `0x0B` types
/// `1234567890` without Shift and `!@#$%^&*()` with it; `0x39` is the space
/// bar.
pub proof fn lemma_qwerty_rows(keyboard: Keyboard, scancode: u8)
    ensures
        0x10 <= scancode <= 0x19 ==> key_char(keyboard, scancode) == Some(
            letter_as_typed(keyboard, "qwertyuiop"@[scancode - 0x10]),
        ),
        0x1E <= scancode <= 0x26 ==> key_char(keyboard, scancode) == Some(
            letter_as_typed(keyboard, "asdfghjkl"@[scancode - 0x1E]),
        ),
        0x2C <= scancode <= 0x32 ==> key_char(keyboard, scancode) == Some(
            letter_as_typed(keyboard, "zxcvbnm"@[scancode - 0x2C]),
        ),
        0x02 <= scancode <= 0x0B && !keyboard.shift_pressed ==> key_char(keyboard, scancode) == Some(
            "1234567890"@[scancode - 0x02],
        ),
        0x02 <= scancode <= 0x0B && keyboard.shift_pressed ==> key_char(keyboard, scancode) == Some(
            "!@#$%^&*()"@[scancode - 0x02],
        ),
        scancode == 0x39 ==> key_char(keyboard, scancode) == Some(' '),
{
    reveal_strlit("!@#$%^&*()");
    reveal_strlit("qwertyuiop");
    reveal_strlit("asdfghjkl");
    reveal_strlit("zxcvbnm");
    reveal_strlit("1234567890");
}

/// Two different keys never type the same character.
pub proof fn lemma_keys_type_distinct_chars(keyboard: Keyboard, a: u8, b: u8)
    requires
        a != b,
        key_char(keyboard, a) is Some,
    ensures
        key_char(keyboard, a) != key_char(keyboard, b),
{
}

} // verus!
