//! Conway's Game of Life on a fixed 8×8 torus.
//!
//! [`grid`] holds the mathematical model of a generation and of the rule,
//! [`gameoflife`] the engine that runs it, [`render`] the debug text of a
//! generation and [`laws`] the properties proved of the model.

use crate::gameoflife::{GameOfLife, Life};
use crate::grid::{barren, Grid, SIZE};
use vstd::prelude::*;

pub mod gameoflife;
pub mod grid;
pub mod laws;
pub mod render;

verus! {

/// A glider in the upper left of the universe, heading down and to the right.
pub open spec fn glider() -> Grid {
    Seq::new(
        SIZE as nat,
        |x: int|
            Seq::new(
                SIZE as nat,
                |y: int| (x == 1 && y == 2) || (x == 2 && y == 3) || (x == 3 && 1 <= y <= 3),
            ),
    )
}

/// The engine that a display starts from: a fresh one, seeded with a glider.
pub fn game() -> (game: GameOfLife)
    ensures
        game@ == (Life { current: glider(), previous: barren(), generation: 0 }),
{
    let mut game = GameOfLife::new();
    game.set_alive(1, 2);
    game.set_alive(2, 3);
    game.set_alive(3, 1);
    game.set_alive(3, 2);
    game.set_alive(3, 3);
    assert(game@.current =~~= glider());
    game
}

} // verus!
