use vstd::prelude::*;

verus! {

/// The keypad key that a host keyboard key stands for, by the character on
/// the host key. The hexadecimal keypad
///
/// ```text
/// 1 2 3 C
/// 4 5 6 D
/// 7 8 9 E
/// A 0 B F
/// ```
///
/// lies on the left-hand block `1 2 3 4 / q w e r / a s d f / z x c v` of a
/// QWERTY keyboard.
pub open spec fn keypad_key(c: char) -> Option<u8> {
    if c == '1' {
        Some(0x1u8)
    } else if c == '2' {
        Some(0x2u8)
    } else if c == '3' {
        Some(0x3u8)
    } else if c == '4' {
        Some(0xCu8)
    } else if c == 'q' {
        Some(0x4u8)
    } else if c == 'w' {
        Some(0x5u8)
    } else if c == 'e' {
        Some(0x6u8)
    } else if c == 'r' {
        Some(0xDu8)
    } else if c == 'a' {
        Some(0x7u8)
    } else if c == 's' {
        Some(0x8u8)
    } else if c == 'd' {
        Some(0x9u8)
    } else if c == 'f' {
        Some(0xEu8)
    } else if c == 'z' {
        Some(0xAu8)
    } else if c == 'x' {
        Some(0x0u8)
    } else if c == 'c' {
        Some(0xBu8)
    } else if c == 'v' {
        Some(0xFu8)
    } else {
        None
    }
}

/// Maps the character of a host key to the keypad key it stands for; `None`
/// for a key outside the block.
pub fn keyboard_match(c: char) -> (r: Option<u8>)
    ensures
        r == keypad_key(c),
        r is Some ==> r->0 < 16,
{
    match c {
        '1' => Some(0x1),
        '2' => Some(0x2),
        '3' => Some(0x3),
        '4' => Some(0xC),
        'q' => Some(0x4),
        'w' => Some(0x5),
        'e' => Some(0x6),
        'r' => Some(0xD),
        'a' => Some(0x7),
        's' => Some(0x8),
        'd' => Some(0x9),
        'f' => Some(0xE),
        'z' => Some(0xA),
        'x' => Some(0x0),
        'c' => Some(0xB),
        'v' => Some(0xF),
        _ => None,
    }
}

} // verus!
