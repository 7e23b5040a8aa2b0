//! What a host needs besides the machine itself: which key of a computer
//! keyboard stands for which key of the hexadecimal keypad, and where on a
//! scaled-up window a framebuffer cell is painted.

use vstd::prelude::*;
use crate::state::{DISPLAY_SIZE, DISPLAY_WIDTH};

verus! {

/// The sixteen keyboard keys in use, row by row of the block
/// `1234 / qwer / asdf / zxcv`.
pub open spec fn keyboard_keys() -> Seq<char> {
    seq!['1', '2', '3', '4', 'q', 'w', 'e', 'r', 'a', 's', 'd', 'f', 'z', 'x', 'c', 'v']
}

/// The keypad as it is laid out, row by row: `123C / 456D / 789E / A0BF`.
pub open spec fn keypad_keys() -> Seq<usize> {
    seq![0x1, 0x2, 0x3, 0xC, 0x4, 0x5, 0x6, 0xD, 0x7, 0x8, 0x9, 0xE, 0xA, 0x0, 0xB, 0xF]
}

/// The keypad key that the keyboard key `key` stands for: the one at the
/// same place in the 4 by 4 block. Other keys stand for none.
pub fn key_index(key: char) -> (index: Option<usize>)
    ensures
        match index {
            Some(k) => k < 16 && exists|p: int|
                0 <= p < 16 && keyboard_keys()[p] == key && keypad_keys()[p] == k,
            None => forall|p: int| 0 <= p < 16 ==> keyboard_keys()[p] != key,
        },
{
    let keyboard: [char; 16] = [
        '1', '2', '3', '4', 'q', 'w', 'e', 'r', 'a', 's', 'd', 'f', 'z', 'x', 'c', 'v',
    ];
    let keypad: [usize; 16] = [
        0x1, 0x2, 0x3, 0xC, 0x4, 0x5, 0x6, 0xD, 0x7, 0x8, 0x9, 0xE, 0xA, 0x0, 0xB, 0xF,
    ];
    assert(keyboard@ =~= keyboard_keys());
    assert(keypad@ =~= keypad_keys());
    let mut p: usize = 0;
    while p < 16
        invariant
            p <= 16,
            keyboard@ == keyboard_keys(),
            keypad@ == keypad_keys(),
            forall|j: int| 0 <= j < p ==> keyboard_keys()[j] != key,
        decreases 16 - p,
    {
        if keyboard[p] == key {
            return Some(keypad[p]);
        }
        p += 1;
    }
    None
}

/// The square of a window, `scale` pixels to the cell, that shows the
/// framebuffer cell with index `cell`: its left edge, its top edge, its
/// width and its height.
pub fn cell_rect(cell: usize, scale: u32) -> (rect: (i32, i32, u32, u32))
    requires
        cell < DISPLAY_SIZE,
        63 * scale <= i32::MAX,
    ensures
        rect.0 == (cell % 64) * scale,
        rect.1 == (cell / 64) * scale,
        rect.2 == scale,
        rect.3 == scale,
{
    let x: u32 = (cell % DISPLAY_WIDTH) as u32;
    let y: u32 = (cell / DISPLAY_WIDTH) as u32;
    assert(x * scale <= 63 * scale) by (nonlinear_arith)
        requires
            x <= 63,
    ;
    assert(y * scale <= 63 * scale) by (nonlinear_arith)
        requires
            y <= 63,
    ;
    ((x * scale) as i32, (y * scale) as i32, scale, scale)
}

} // verus!
