//! The debug text of a generation: one line per row, the cells as `0` and `1`
//! between square brackets, separated by a comma and a space.

use crate::grid::{Grid, SIZE};
use vstd::prelude::*;

verus! {

/// The digit that stands for a cell.
pub open spec fn digit(live: bool) -> char {
    if live {
        '1'
    } else {
        '0'
    }
}

/// The first `n` cells of `row`, written as digits with `", "` between them.
pub open spec fn cells_text(row: Seq<bool>, n: nat) -> Seq<char>
    decreases n,
{
    if n == 0 {
        Seq::empty()
    } else if n == 1 {
        seq![digit(row[0])]
    } else {
        cells_text(row, (n - 1) as nat) + seq![',', ' ', digit(row[n - 1])]
    }
}

/// One row as a line of text: `[c, c, c, c, c, c, c, c]` and a line feed.
pub open spec fn row_text(row: Seq<bool>) -> Seq<char> {
    seq!['['] + cells_text(row, SIZE as nat) + seq![']', '\n']
}

/// The lines of the first `n` rows of `g`, one after the other.
pub open spec fn rows_text(g: Grid, n: nat) -> Seq<char>
    decreases n,
{
    if n == 0 {
        Seq::empty()
    } else {
        rows_text(g, (n - 1) as nat) + row_text(g[n - 1])
    }
}

/// The whole generation as text, row 0 first.
pub open spec fn grid_text(g: Grid) -> Seq<char> {
    rows_text(g, SIZE as nat)
}

} // verus!
