//! The host keyboard layout of the hex keypad: the four by four block whose
//! top-left key is `1` stands for the pad
//! ```text
//! 1 2 3 C
//! 4 5 6 D
//! 7 8 9 E
//! A 0 B F
//! ```

use vstd::prelude::*;

verus! {

/// The pad key that a host key code stands for; host key codes of character
/// keys are the characters' code points, in lower case.
pub open spec fn pad_of(code: i32) -> Option<usize> {
    if code == '1' as i32 { Some(0x1usize) }
    else if code == '2' as i32 { Some(0x2usize) }
    else if code == '3' as i32 { Some(0x3usize) }
    else if code == '4' as i32 { Some(0xCusize) }
    else if code == 'q' as i32 { Some(0x4usize) }
    else if code == 'w' as i32 { Some(0x5usize) }
    else if code == 'e' as i32 { Some(0x6usize) }
    else if code == 'r' as i32 { Some(0xDusize) }
    else if code == 'a' as i32 { Some(0x7usize) }
    else if code == 's' as i32 { Some(0x8usize) }
    else if code == 'd' as i32 { Some(0x9usize) }
    else if code == 'f' as i32 { Some(0xEusize) }
    else if code == 'z' as i32 { Some(0xAusize) }
    else if code == 'x' as i32 { Some(0x0usize) }
    else if code == 'c' as i32 { Some(0xBusize) }
    else if code == 'v' as i32 { Some(0xFusize) }
    else { None }
}

/// Maps a host key code to the pad key it stands for, if any.
pub fn key2btn(code: i32) -> (r: Option<usize>)
    ensures
        r == pad_of(code),
        r matches Some(k) ==> k < 16,
{
    if code == '1' as i32 { Some(0x1) }
    else if code == '2' as i32 { Some(0x2) }
    else if code == '3' as i32 { Some(0x3) }
    else if code == '4' as i32 { Some(0xC) }
    else if code == 'q' as i32 { Some(0x4) }
    else if code == 'w' as i32 { Some(0x5) }
    else if code == 'e' as i32 { Some(0x6) }
    else if code == 'r' as i32 { Some(0xD) }
    else if code == 'a' as i32 { Some(0x7) }
    else if code == 's' as i32 { Some(0x8) }
    else if code == 'd' as i32 { Some(0x9) }
    else if code == 'f' as i32 { Some(0xE) }
    else if code == 'z' as i32 { Some(0xA) }
    else if code == 'x' as i32 { Some(0x0) }
    else if code == 'c' as i32 { Some(0xB) }
    else if code == 'v' as i32 { Some(0xF) }
    else { None }
}

} // verus!
