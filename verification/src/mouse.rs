//! Encoding of mouse events reported to applications that asked for them.

use vstd::prelude::*;
use crate::screen::ansi::{dec_digits, push_decimal};

verus! {

/// SGR (mode 1006) report: `ESC [ < button ; col ; row M` (press) or `m` (release),
/// one-based.
pub open spec fn sgr_report(button: u8, col: int, row: int, press: bool) -> Seq<u8> {
    seq![0x1bu8, 0x5bu8, 0x3cu8] + dec_digits(button as nat) + seq![0x3bu8] + dec_digits((col + 1) as nat)
        + seq![0x3bu8] + dec_digits((row + 1) as nat) + seq![if press { 0x4du8 } else { 0x6du8 }]
}

/// Legacy X10 report: `ESC [ M` then button, column and row, each plus 32 (one-based
/// positions capped at 222).
pub open spec fn legacy_report(button: u8, col: int, row: int) -> Seq<u8> {
    let cx = if col + 1 < 222 { col + 1 } else { 222 };
    let cy = if row + 1 < 222 { row + 1 } else { 222 };
    seq![0x1bu8, 0x5bu8, 0x4du8, (32 + button) as u8, (cx + 32) as u8, (cy + 32) as u8]
}

/// Encodes a mouse event in SGR format (see `sgr_report`).
pub fn mouse_sgr(button: u8, col: usize, row: usize, press: bool) -> (r: Vec<u8>)
    requires
        col < usize::MAX,
        row < usize::MAX,
    ensures
        r@ == sgr_report(button, col as int, row as int, press),
{
    let mut out: Vec<u8> = Vec::new();
    out.push(0x1b);
    out.push(0x5b);
    out.push(0x3c);
    push_decimal(&mut out, button as usize);
    out.push(0x3b);
    push_decimal(&mut out, col + 1);
    out.push(0x3b);
    push_decimal(&mut out, row + 1);
    out.push(if press { 0x4d } else { 0x6d });
    assert(out@ =~= sgr_report(button, col as int, row as int, press));
    out
}

/// Encodes a mouse event in legacy X10 format (see `legacy_report`).
pub fn mouse_legacy(button: u8, col: usize, row: usize) -> (r: Vec<u8>)
    requires
        button <= 223,
        col < usize::MAX,
        row < usize::MAX,
    ensures
        r@ == legacy_report(button, col as int, row as int),
{
    let cx = if col + 1 < 222 { col + 1 } else { 222 };
    let cy = if row + 1 < 222 { row + 1 } else { 222 };
    let mut out: Vec<u8> = Vec::new();
    out.push(0x1b);
    out.push(0x5b);
    out.push(0x4d);
    out.push(32 + button);
    out.push(cx as u8 + 32);
    out.push(cy as u8 + 32);
    assert(out@ =~= legacy_report(button, col as int, row as int));
    out
}

} // verus!
