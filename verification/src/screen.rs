//! Where the calculator's texts go in the character grid.

use vstd::prelude::*;
use vstd::string::*;
use crate::digits::Digits;

verus! {

/// Whether a grid of this size holds the whole display: more than 45
/// columns and more than 5 rows.
pub open spec fn fits(width: u16, height: u16) -> bool {
    width > 45 && height > 5
}

/// Whether the grid is too small for the display.
pub fn too_small(width: u16, height: u16) -> (small: bool)
    ensures
        small == !fits(width, height),
{
    height <= 5 || width <= 45
}

/// The first line of a log of `lines` lines that a bordered box of `height`
/// rows shows: the box has room for `height - 2` lines and shows the latest.
pub open spec fn first_shown_of(lines: nat, height: nat) -> nat {
    if lines + 2 > height {
        (lines + 2 - height) as nat
    } else {
        0
    }
}

/// The index of the first log line that the box shows.
pub fn first_shown(lines: usize, height: u16) -> (first: usize)
    requires
        height >= 2,
    ensures
        first == first_shown_of(lines as nat, height as nat),
{
    let room: usize = (height - 2) as usize;
    if lines > room {
        lines - room
    } else {
        0
    }
}

/// The column at which a text of `len` characters starts when it ends at
/// column `width`; the first column where it is longer than that.
pub open spec fn start_column(len: nat, width: nat) -> nat {
    if width > len {
        (width - len) as nat
    } else {
        0
    }
}

/// The middle row of `height` rows that begin at row `top`, the upper one
/// of two.
pub open spec fn middle_row(top: nat, height: nat) -> nat {
    if height > 0 {
        top + ((height - 1) / 2) as nat
    } else {
        top
    }
}

/// Where the entry starts when it is drawn flush right on the middle row of
/// an area `width` columns wide whose `height` rows begin at row `top`:
/// column, row, and the length of the text.
pub fn entry_start(entry: &Digits, top: u16, width: u16, height: u16) -> (start: (u16, u16, u16))
    requires
        entry@.wf(),
        middle_row(top as nat, height as nat) <= u16::MAX,
    ensures
        start.0 == start_column(entry@.text().len(), width as nat),
        start.1 == middle_row(top as nat, height as nat),
        start.2 == entry@.text().len(),
{
    let text = entry.to_string();
    let count = text.as_str().unicode_len();
    assert(entry@.sign_text().len() <= 1);
    assert(entry@.body_text().len() <= 17);
    let len: u16 = count as u16;
    let column: u16 = if width > len {
        width - len
    } else {
        0
    };
    let rows: u16 = if height > 0 {
        height - 1
    } else {
        0
    };
    (column, top + rows / 2, len)
}

} // verus!
