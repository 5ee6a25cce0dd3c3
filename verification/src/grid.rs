//! The mathematical model: a generation is an 8×8 matrix of booleans whose
//! edges are glued together, and the rule maps one generation to the next.

use vstd::prelude::*;

verus! {

/// Side length of the square universe.
pub const SIZE: usize = 8;

/// One generation: `g[x][y]` is true when the cell in row `x`, column `y` is alive.
pub type Grid = Seq<Seq<bool>>;

/// `(x, y)` names a cell of the universe.
pub open spec fn in_bounds(x: int, y: int) -> bool {
    0 <= x < SIZE && 0 <= y < SIZE
}

/// `g` has `SIZE` rows of `SIZE` cells each.
pub open spec fn well_formed(g: Grid) -> bool {
    &&& g.len() == SIZE
    &&& forall|x: int| 0 <= x < SIZE ==> (#[trigger] g[x]).len() == SIZE
}

/// The generation in which every cell is dead.
pub open spec fn barren() -> Grid {
    Seq::new(SIZE as nat, |x: int| Seq::new(SIZE as nat, |y: int| false))
}

/// Whether `(x, y)` is a live cell of `g`; coordinates outside the universe name no cell.
pub open spec fn alive(g: Grid, x: int, y: int) -> bool {
    in_bounds(x, y) && g[x][y]
}

/// `g` with the cell `(x, y)` brought to life; unchanged when `(x, y)` is outside the universe.
pub open spec fn seeded(g: Grid, x: int, y: int) -> Grid {
    if in_bounds(x, y) {
        g.update(x, g[x].update(y, true))
    } else {
        g
    }
}

/// No cell of `g` is alive.
pub open spec fn extinct(g: Grid) -> bool {
    forall|x: int, y: int| in_bounds(x, y) ==> !(#[trigger] g[x][y])
}

/// The representative of `i` in `[0, SIZE)`.
pub open spec fn wrap(i: int) -> int {
    i % (SIZE as int)
}

/// The cell found at `(x, y)` once both coordinates are wrapped around the torus.
pub open spec fn torus(g: Grid, x: int, y: int) -> bool {
    g[wrap(x)][wrap(y)]
}

/// 1 for a live cell, 0 for a dead one.
pub open spec fn census(live: bool) -> nat {
    if live {
        1
    } else {
        0
    }
}

/// How many of the eight cells around `(x, y)` are alive, edges wrapping.
pub open spec fn live_neighbors(g: Grid, x: int, y: int) -> nat {
    census(torus(g, x - 1, y - 1)) + census(torus(g, x - 1, y)) + census(torus(g, x - 1, y + 1))
        + census(torus(g, x, y - 1)) + census(torus(g, x, y + 1))
        + census(torus(g, x + 1, y - 1)) + census(torus(g, x + 1, y)) + census(
        torus(g, x + 1, y + 1),
    )
}

/// The rule: a dead cell with exactly three live neighbours is born, a live
/// cell with two or three survives, every other cell is dead.
pub open spec fn next_alive(g: Grid, x: int, y: int) -> bool {
    let n = live_neighbors(g, x, y);
    if torus(g, x, y) {
        n == 2 || n == 3
    } else {
        n == 3
    }
}

/// The generation that follows `g`: every cell judged by the rule on `g` alone.
pub open spec fn evolve(g: Grid) -> Grid {
    Seq::new(SIZE as nat, |x: int| Seq::new(SIZE as nat, |y: int| next_alive(g, x, y)))
}

/// `g` moved by `dx` rows and `dy` columns round the torus: the cell that
/// was at `(x, y)` is found at `(x + dx, y + dy)`, wrapped.
pub open spec fn shifted(g: Grid, dx: int, dy: int) -> Grid {
    Seq::new(SIZE as nat, |x: int| Seq::new(SIZE as nat, |y: int| torus(g, x - dx, y - dy)))
}

} // verus!
