//! Properties of the model, proved once for every generation and every engine state.

use crate::gameoflife::Life;
use crate::grid::{
    alive, census, evolve, extinct, in_bounds, live_neighbors, next_alive, shifted, torus,
    well_formed, wrap, Grid, SIZE,
};
use vstd::arithmetic::div_mod::lemma_mod_multiples_vanish;
use vstd::calc;
use vstd::prelude::*;

verus! {

/// In a fresh engine no cell is alive, whatever coordinates are asked for,
/// and the universe is extinct.
pub proof fn law_fresh_engine_is_dead(x: int, y: int)
    ensures
        !alive(Life::fresh().current, x, y),
        extinct(Life::fresh().current),
{
}

/// Seeding a cell outside the universe changes nothing, and no cell is ever
/// alive there.
pub proof fn law_outside_is_inert(life: Life, x: int, y: int)
    requires
        !in_bounds(x, y),
    ensures
        life.seed(x, y) == life,
        !alive(life.current, x, y),
{
}

/// Seeding a cell inside the universe brings that cell to life and leaves
/// every other cell as it was.
pub proof fn law_seed_touches_one_cell(life: Life, x: int, y: int, a: int, b: int)
    requires
        well_formed(life.current),
        in_bounds(x, y),
    ensures
        well_formed(life.seed(x, y).current),
        alive(life.seed(x, y).current, x, y),
        (a != x || b != y) ==> alive(life.seed(x, y).current, a, b) == alive(life.current, a, b),
{
}

/// The rule is deterministic and looks at the current generation only: two
/// engines that show the same generation show the same generation after any
/// number of steps, whatever came before and however long each has run.
pub proof fn law_steps_are_deterministic(a: Life, b: Life, n: nat)
    requires
        a.current == b.current,
    ensures
        a.steps(n).current == b.steps(n).current,
        n > 0 ==> a.steps(n).previous == b.steps(n).previous,
        a.steps(n).generation == a.generation + n,
    decreases n,
{
    if n > 0 {
        law_steps_are_deterministic(a, b, (n - 1) as nat);
    }
}

/// The neighbours of the corner cell `(0, 0)` are found across the edges:
/// three in the last row, two in its own row, three in row 1, and of each
/// of these the ones in the last column, in its own column and in column 1.
pub proof fn law_corner_neighbors_wrap(g: Grid)
    ensures
        live_neighbors(g, 0, 0) == census(g[SIZE - 1][SIZE - 1]) + census(g[SIZE - 1][0]) + census(
            g[SIZE - 1][1],
        ) + census(g[0][SIZE - 1]) + census(g[0][1]) + census(g[1][SIZE - 1]) + census(g[1][0])
            + census(g[1][1]),
{
}

/// Moving a pattern by whole turns round the torus gives the pattern back.
pub proof fn law_whole_turns_are_identity(g: Grid, turns_x: int, turns_y: int)
    requires
        well_formed(g),
    ensures
        shifted(g, turns_x * SIZE, turns_y * SIZE) == g,
{
    assert forall|x: int, y: int| in_bounds(x, y) implies torus(
        g,
        x - turns_x * SIZE,
        y - turns_y * SIZE,
    ) == g[x][y] by {
        lemma_wrap_ignores_turns(x, -turns_x);
        lemma_wrap_ignores_turns(y, -turns_y);
    }
    assert(shifted(g, turns_x * SIZE, turns_y * SIZE) =~~= g);
}

/// The universe has no special place: a pattern moved by `(dx, dy)`, across
/// an edge or not, evolves into the moved successor of the pattern.
pub proof fn law_evolve_commutes_with_shift(g: Grid, dx: int, dy: int)
    ensures
        evolve(shifted(g, dx, dy)) == shifted(evolve(g), dx, dy),
{
    let left = evolve(shifted(g, dx, dy));
    let right = shifted(evolve(g), dx, dy);
    assert forall|x: int| 0 <= x < SIZE implies #[trigger] left[x] == right[x] by {
        assert forall|y: int| 0 <= y < SIZE implies #[trigger] left[x][y] == right[x][y] by {
            lemma_cell_commutes_with_shift(g, dx, dy, x, y);
        }
        assert(left[x] =~= right[x]);
    }
    assert(left =~= right);
}

/// One cell of the law above.
proof fn lemma_cell_commutes_with_shift(g: Grid, dx: int, dy: int, x: int, y: int)
    requires
        in_bounds(x, y),
    ensures
        evolve(shifted(g, dx, dy))[x][y] == shifted(evolve(g), dx, dy)[x][y],
{
    let moved = shifted(g, dx, dy);
    let next = evolve(g);
    lemma_wrap_in_range(x - dx);
    lemma_wrap_in_range(y - dy);
    calc! {
        (==)
        evolve(moved)[x][y]; {}
        next_alive(moved, x, y); {
            lemma_rule_on_moved(g, dx, dy, x, y);
        }
        next_alive(g, x - dx, y - dy); {
            lemma_rule_ignores_turns(g, x - dx, y - dy);
        }
        next_alive(g, wrap(x - dx), wrap(y - dy)); {}
        next[wrap(x - dx)][wrap(y - dy)]; {}
        torus(next, x - dx, y - dy); {}
        shifted(next, dx, dy)[x][y];
    }
}

/// A wrapped coordinate names a row or a column, and wrapping it again changes nothing.
proof fn lemma_wrap_in_range(i: int)
    ensures
        0 <= wrap(i) < SIZE,
        wrap(wrap(i)) == wrap(i),
{
}

/// Looking up a cell of the moved pattern is looking up the cell it came from.
proof fn lemma_lookup_on_moved(g: Grid, dx: int, dy: int, x: int, y: int)
    ensures
        torus(shifted(g, dx, dy), x, y) == torus(g, x - dx, y - dy),
{
}

/// The rule judges a cell of the moved pattern as it judges the cell it came from.
proof fn lemma_rule_on_moved(g: Grid, dx: int, dy: int, x: int, y: int)
    ensures
        live_neighbors(shifted(g, dx, dy), x, y) == live_neighbors(g, x - dx, y - dy),
        next_alive(shifted(g, dx, dy), x, y) == next_alive(g, x - dx, y - dy),
{
    lemma_lookup_on_moved(g, dx, dy, x - 1, y - 1);
    lemma_lookup_on_moved(g, dx, dy, x - 1, y);
    lemma_lookup_on_moved(g, dx, dy, x - 1, y + 1);
    lemma_lookup_on_moved(g, dx, dy, x, y - 1);
    lemma_lookup_on_moved(g, dx, dy, x, y);
    lemma_lookup_on_moved(g, dx, dy, x, y + 1);
    lemma_lookup_on_moved(g, dx, dy, x + 1, y - 1);
    lemma_lookup_on_moved(g, dx, dy, x + 1, y);
    lemma_lookup_on_moved(g, dx, dy, x + 1, y + 1);
}

/// The rule gives the same verdict on a cell however its coordinates are
/// written: wrapped into the universe or not.
proof fn lemma_rule_ignores_turns(g: Grid, x: int, y: int)
    ensures
        live_neighbors(g, wrap(x), wrap(y)) == live_neighbors(g, x, y),
        next_alive(g, wrap(x), wrap(y)) == next_alive(g, x, y),
{
    assert(wrap(wrap(x) - 1) == wrap(x - 1));
    assert(wrap(wrap(x)) == wrap(x));
    assert(wrap(wrap(x) + 1) == wrap(x + 1));
    assert(wrap(wrap(y) - 1) == wrap(y - 1));
    assert(wrap(wrap(y)) == wrap(y));
    assert(wrap(wrap(y) + 1) == wrap(y + 1));
}

/// Adding whole turns to a coordinate does not change where it lands.
proof fn lemma_wrap_ignores_turns(i: int, turns: int)
    ensures
        wrap(i + turns * SIZE) == wrap(i),
        0 <= wrap(i) < SIZE,
{
    lemma_mod_multiples_vanish(turns, i, SIZE as int);
}

} // verus!
