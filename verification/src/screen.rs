//! What the screen computes before it draws: the cells of a progress bar,
//! the border of an employee's card, and the time of the simulated world.

use vstd::prelude::*;

verus! {

/// The height of an employee's card, in rows.
pub const CARD_HEIGHT: u16 = 20;

/// The width of an employee's card, in columns.
pub const CARD_WIDTH: u16 = 90;

/// `x` brought into the range of `i32`.
pub open spec fn saturate32(x: int) -> int {
    if x < i32::MIN {
        i32::MIN as int
    } else if x > i32::MAX {
        i32::MAX as int
    } else {
        x
    }
}

/// The quotient of `a` by a positive `b`, rounded towards zero.
pub open spec fn quotient_towards_zero(a: int, b: int) -> int {
    if a >= 0 {
        a / b
    } else {
        -((-a) / b)
    }
}

/// The number of cells of a bar of `max_width` cells that a progress in
/// millionths fills: the nearest whole number, never less than none.
pub open spec fn bar_limit(progress: int, max_width: int) -> int {
    let cells = (progress * max_width + 500_000) / 1_000_000;
    if cells < 0 {
        0
    } else if cells > u16::MAX {
        u16::MAX as int
    } else {
        cells
    }
}

/// Whether the cell in column `col` of a bar is lit: the cells below the
/// limit are, and so is every cell of a task that is done.
pub open spec fn bar_cell(col: int, progress: int, max_width: int) -> bool {
    col < bar_limit(progress, max_width) || progress == 1_000_000
}

/// The cells of a progress bar, one more than `max_width`, each lit or not.
pub fn progress_bar(progress: i64, max_width: u16) -> (cells: Vec<bool>)
    ensures
        cells@.len() == max_width + 1,
        forall|col: int|
            0 <= col <= max_width ==> cells@[col] == bar_cell(col, progress as int, max_width as int),
{
    assert(-0x8000_0000_0000_0000_0000 <= (progress as int) * (max_width as int)
        <= 0x8000_0000_0000_0000_0000) by (nonlinear_arith)
        requires
            -0x8000_0000_0000_0000 <= progress <= 0x7fff_ffff_ffff_ffff,
            0 <= max_width <= 0xffff,
    ;
    let scaled: i128 = (progress as i128) * (max_width as i128) + 500_000;
    let cells_lit: i128 = match scaled.checked_div_euclid(1_000_000) {
        Some(q) => q,
        None => 0,
    };
    let limit: u32 = if cells_lit < 0 {
        0
    } else if cells_lit > 0xffff {
        0xffff
    } else {
        cells_lit as u32
    };
    let mut cells: Vec<bool> = Vec::new();
    let mut col: u32 = 0;
    while col <= max_width as u32
        invariant
            col <= max_width + 1,
            limit == bar_limit(progress as int, max_width as int),
            cells@.len() == col,
            forall|c: int|
                0 <= c < col ==> cells@[c] == bar_cell(c, progress as int, max_width as int),
        decreases max_width + 1 - col,
    {
        cells.push(col < limit || progress == 1_000_000);
        col += 1;
    }
    cells
}

/// Whether the place in column `x` and row `y` is on the border of an
/// employee's card.
pub fn card_border(x: u16, y: u16) -> (r: bool)
    ensures
        r == (y == 0 || y == CARD_HEIGHT - 1 || x == 0 || x == CARD_WIDTH - 1),
{
    (y == 0 || y == CARD_HEIGHT - 1) || (x == 0 || x == CARD_WIDTH - 1)
}

/// The whole days of the simulated world after so many seconds of ours:
/// a second of ours is a hundred of theirs.
pub open spec fn imaginary_days(seconds: int) -> int {
    saturate32(quotient_towards_zero(5 * seconds, 72))
}

/// The hours of the simulated world beyond the whole days, to the nearest
/// hour.
pub open spec fn imaginary_hours(seconds: int) -> int {
    saturate32((2 * (5 * seconds - 72 * imaginary_days(seconds)) + 3) / 6)
}

/// The time of the simulated world, in days and hours, after so many
/// seconds of ours.
pub fn imaginary_time(seconds: i64) -> (r: (i32, i32))
    ensures
        r.0 == imaginary_days(seconds as int),
        r.1 == imaginary_hours(seconds as int),
{
    let thirds: i128 = 5 * (seconds as i128);
    let whole: i128 = match thirds.checked_div(72) {
        Some(q) => q,
        None => 0,
    };
    let days: i32 = narrow32(whole);
    let left: i128 = thirds - 72 * (days as i128);
    let nearest: i128 = match (2 * left + 3).checked_div_euclid(6) {
        Some(q) => q,
        None => 0,
    };
    (days, narrow32(nearest))
}

/// Narrows a wide value to `i32`, stopping at the ends of the range.
pub fn narrow32(x: i128) -> (r: i32)
    ensures
        r == saturate32(x as int),
{
    if x < i32::MIN as i128 {
        i32::MIN
    } else if x > i32::MAX as i128 {
        i32::MAX
    } else {
        x as i32
    }
}

} // verus!
