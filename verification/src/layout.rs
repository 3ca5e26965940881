//! The geometry of the grid in which a viewer shows one step: one row of
//! cells per level, each cell four characters wide.

use vstd::prelude::*;
use crate::schedule::BinState;

verus! {

/// What a viewer writes into the cell of a bin.
#[derive(Clone, Copy, Debug, PartialEq, Eq, Structural)]
pub enum Mark {
    /// Nothing: the cell stays blank.
    Blank,
    /// The sign of a bin that flushes.
    Flush,
    /// The sign of a bin that holds data, at `numerator / denominator` of
    /// the full intensity.
    Shaded { numerator: u32, denominator: u32 },
}

/// The mark of a bin in a given state. An empty bin and a bin that has
/// only begun to fill leave the cell blank; a full bin is shown at full
/// intensity, a filling one at its fraction.
pub open spec fn mark_of(state: BinState) -> Mark {
    match state {
        BinState::Empty => Mark::Blank,
        BinState::Flushing => Mark::Flush,
        BinState::Full => Mark::Shaded { numerator: 1, denominator: 1 },
        BinState::Filling { numerator, denominator } => if numerator == 0 {
            Mark::Blank
        } else {
            Mark::Shaded { numerator, denominator }
        },
    }
}

/// Chooses the mark for a bin in state `state`.
pub fn mark_for(state: BinState) -> (mark: Mark)
    ensures
        mark == mark_of(state),
{
    match state {
        BinState::Empty => Mark::Blank,
        BinState::Flushing => Mark::Flush,
        BinState::Full => Mark::Shaded { numerator: 1, denominator: 1 },
        BinState::Filling { numerator, denominator } => {
            if numerator == 0 {
                Mark::Blank
            } else {
                Mark::Shaded { numerator, denominator }
            }
        },
    }
}

/// Characters in one row of a grid of `c` cells: four per cell, and two
/// more to close the row.
pub open spec fn row_width(c: nat) -> nat {
    4 * c + 2
}

/// The character at position `k` of an empty row: a bar where a cell
/// begins, a blank elsewhere.
pub open spec fn frame_char(k: int) -> char {
    if k % 4 == 0 {
        '|'
    } else {
        ' '
    }
}

/// Whether a row of `num_bins` cells can be laid out in 32-bit columns.
pub open spec fn fits(num_bins: u32) -> bool {
    4 * num_bins + 1 <= u32::MAX
}

/// The line that separates two rows: dashes over the whole width.
pub fn rule_row(num_bins: u32) -> (row: Vec<char>)
    requires
        fits(num_bins),
    ensures
        row@.len() == row_width(num_bins as nat),
        forall|k: int| 0 <= k < row@.len() ==> row@[k] == '-',
{
    let width: u32 = 4 * num_bins + 1;
    let mut row: Vec<char> = Vec::new();
    let mut k: u32 = 0;
    while k < width
        invariant
            k <= width,
            row@.len() == k,
            forall|m: int| 0 <= m < row@.len() ==> row@[m] == '-',
        decreases width - k,
    {
        row.push('-');
        k = k + 1;
    }
    row.push('-');
    row
}

/// A row of empty cells: a bar at every fourth position, from the first
/// on, and blanks between them.
pub fn frame_row(num_bins: u32) -> (row: Vec<char>)
    requires
        fits(num_bins),
    ensures
        row@.len() == row_width(num_bins as nat),
        forall|k: int| 0 <= k < row@.len() ==> row@[k] == frame_char(k),
{
    let width: u32 = 4 * num_bins + 1;
    let mut row: Vec<char> = Vec::new();
    let mut k: u32 = 0;
    while k < width
        invariant
            k <= width,
            row@.len() == k,
            forall|m: int| 0 <= m < row@.len() ==> row@[m] == frame_char(m),
        decreases width - k,
    {
        if k % 4 == 0 {
            row.push('|');
        } else {
            row.push(' ');
        }
        k = k + 1;
    }
    if width % 4 == 0 {
        row.push('|');
    } else {
        row.push(' ');
    }
    row
}

/// Column, counted from 1, at which the mark of bin `bin_id` is written:
/// the third position of its cell.
pub fn bin_column(num_bins: u32, bin_id: u32) -> (column: u32)
    requires
        fits(num_bins),
        bin_id < num_bins,
    ensures
        column == 4 * bin_id + 3,
        column < row_width(num_bins as nat),
{
    4 * bin_id + 3
}

} // verus!
