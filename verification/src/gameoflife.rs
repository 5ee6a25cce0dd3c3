//! The engine: two generations of the universe and a counter of completed steps.

use crate::grid::{
    alive, barren, census, evolve, extinct, in_bounds, next_alive, seeded, torus, well_formed,
    wrap, Grid, SIZE,
};
use crate::render::{cells_text, grid_text, row_text, rows_text};
use vstd::prelude::*;
use vstd::string::StringExecFns;

verus! {

/// The stored form of a generation: one byte per cell, 1 for alive and 0 for dead.
pub type Universe = [[u8; SIZE]; SIZE];

/// Every cell of `u` holds 0 or 1.
pub open spec fn binary(u: Universe) -> bool {
    forall|x: int, y: int| in_bounds(x, y) ==> #[trigger] u[x][y] <= 1
}

/// The cells that a row of bytes stores.
pub open spec fn row_of(line: [u8; SIZE]) -> Seq<bool> {
    Seq::new(SIZE as nat, |y: int| line[y] == 1u8)
}

/// The generation that `u` stores.
pub open spec fn grid_of(u: Universe) -> Grid {
    Seq::new(SIZE as nat, |x: int| Seq::new(SIZE as nat, |y: int| u[x][y] == 1u8))
}

/// What an engine stands for: the generation on show, the one before it, and
/// the number of steps completed so far.
#[verifier::ext_equal]
pub struct Life {
    pub current: Grid,
    pub previous: Grid,
    pub generation: nat,
}

impl Life {
    /// A fresh engine: both generations barren, no step taken.
    pub open spec fn fresh() -> Life {
        Life { current: barren(), previous: barren(), generation: 0 }
    }

    /// The cell `(x, y)` of the current generation brought to life.
    pub open spec fn seed(self, x: int, y: int) -> Life {
        Life { current: seeded(self.current, x, y), ..self }
    }

    /// One step: the current generation becomes the previous one and is
    /// replaced by its successor, and the counter moves on by one.
    pub open spec fn step(self) -> Life {
        Life {
            current: evolve(self.current),
            previous: self.current,
            generation: self.generation + 1,
        }
    }

    /// `n` steps, one after the other.
    pub open spec fn steps(self, n: nat) -> Life
        decreases n,
    {
        if n == 0 {
            self
        } else {
            self.steps((n - 1) as nat).step()
        }
    }
}

/// The engine. It owns the current generation and the one before it; cells
/// change only by seeding and by steps.
#[derive(Debug)]
pub struct GameOfLife {
    state: Universe,
    last: Universe,
    ticks: u32,
}

impl View for GameOfLife {
    type V = Life;

    closed spec fn view(&self) -> Life {
        Life {
            current: grid_of(self.state),
            previous: grid_of(self.last),
            generation: self.ticks as nat,
        }
    }
}

impl GameOfLife {
    #[verifier::type_invariant]
    spec fn cells_are_binary(self) -> bool {
        binary(self.state) && binary(self.last)
    }

    /// Both generations of an engine have the dimensions of the universe.
    pub proof fn lemma_well_formed(self)
        ensures
            well_formed(self@.current),
            well_formed(self@.previous),
    {
    }

    /// An engine in which every cell is dead and no step has been taken.
    pub fn new() -> (game: Self)
        ensures
            game@ == Life::fresh(),
    {
        let game = GameOfLife { state: [[0; SIZE]; SIZE], last: [[0; SIZE]; SIZE], ticks: 0 };
        assert(game@ =~~= Life::fresh());
        game
    }

    /// Brings the cell `(x, y)` to life. Coordinates outside the universe are ignored.
    pub fn set_alive(&mut self, x: usize, y: usize)
        ensures
            final(self)@ == old(self)@.seed(x as int, y as int),
    {
        if x >= SIZE || y >= SIZE {
            return;
        }
        proof {
            use_type_invariant(&*self);
        }
        self.state[x][y] = 1;
        assert(self@ =~~= old(self)@.seed(x as int, y as int));
    }

    /// Whether the cell `(x, y)` is alive now. Outside the universe nothing is.
    pub fn is_alive(&self, x: usize, y: usize) -> (live: bool)
        ensures
            live == alive(self@.current, x as int, y as int),
    {
        if x >= SIZE || y >= SIZE {
            return false;
        }
        self.state[x][y] == 1
    }

    /// Whether every cell is dead now.
    pub fn is_dead(&self) -> (dead: bool)
        ensures
            dead == extinct(self@.current),
    {
        proof {
            use_type_invariant(self);
        }
        for x in 0..SIZE
            invariant
                binary(self.state),
                forall|a: int, b: int| 0 <= a < x && 0 <= b < SIZE ==> self.state[a][b] == 0,
        {
            for y in 0..SIZE
                invariant
                    binary(self.state),
                    x < SIZE,
                    forall|a: int, b: int| 0 <= a < x && 0 <= b < SIZE ==> self.state[a][b] == 0,
                    forall|b: int| 0 <= b < y ==> self.state[x as int][b] == 0,
            {
                if self.state[x][y] != 0 {
                    assert(self@.current[x as int][y as int]);
                    return false;
                }
            }
        }
        true
    }

    /// Advances the universe by one generation. Every cell is judged on the
    /// generation before the step, which is kept as the previous one.
    ///
    /// The counter holds 32 bits: the step that would overflow it is not taken.
    pub fn tick(&mut self)
        requires
            old(self)@.generation < u32::MAX,
        ensures
            final(self)@ == old(self)@.step(),
    {
        proof {
            use_type_invariant(&*self);
        }
        self.last = self.state;

        for x in 0..SIZE
            invariant
                binary(self.state),
                binary(self.last),
                self.last == old(self).state,
                self.ticks == old(self).ticks,
                forall|a: int, b: int|
                    0 <= a < x && 0 <= b < SIZE ==> (#[trigger] self.state[a][b] == 1
                        <==> next_alive(grid_of(self.last), a, b)),
        {
            for y in 0..SIZE
                invariant
                    x < SIZE,
                    binary(self.state),
                    binary(self.last),
                    self.last == old(self).state,
                    self.ticks == old(self).ticks,
                    forall|a: int, b: int|
                        0 <= a < x && 0 <= b < SIZE ==> (#[trigger] self.state[a][b] == 1
                            <==> next_alive(grid_of(self.last), a, b)),
                    forall|b: int|
                        0 <= b < y ==> (#[trigger] self.state[x as int][b] == 1 <==> next_alive(
                            grid_of(self.last),
                            x as int,
                            b,
                        )),
            {
                self.state[x][y] = Self::will_be_alive(self.last, x, y)
            }
        }
        self.ticks += 1;
        assert(self@ =~~= old(self)@.step());
    }

    /// The byte that the cell `(x, y)` holds in the generation after `state`.
    fn will_be_alive(state: Universe, x: usize, y: usize) -> (cell: u8)
        requires
            binary(state),
            x < SIZE,
            y < SIZE,
        ensures
            cell <= 1,
            cell == 1 <==> next_alive(grid_of(state), x as int, y as int),
    {
        let ghost g = grid_of(state);
        let mut alive_neighbors: u8 = 0;
        for i in SIZE - 1..SIZE + 2
            invariant
                binary(state),
                g == grid_of(state),
                x < SIZE,
                y < SIZE,
                alive_neighbors == counted_in_rows(g, x as int, y as int, i - (SIZE - 1)),
        {
            for j in SIZE - 1..SIZE + 2
                invariant
                    binary(state),
                    g == grid_of(state),
                    x < SIZE,
                    y < SIZE,
                    SIZE - 1 <= i < SIZE + 2,
                    alive_neighbors == counted_in_rows(g, x as int, y as int, i - (SIZE - 1))
                        + counted_in_row(g, x as int, y as int, i - SIZE, j - (SIZE - 1)),
            {
                // the cell itself is no neighbour
                if i != SIZE || j != SIZE {
                    // adding SIZE before the remainder wraps both ways round the torus
                    let x_i = (x + i) % SIZE;
                    let y_j = (y + j) % SIZE;
                    proof {
                        lemma_stored_census(state, x + i - SIZE, y + j - SIZE);
                    }
                    alive_neighbors += state[x_i][y_j];
                }
            }
        }
        match (state[x][y], alive_neighbors) {
            (0, 3) => 1,
            (1, 2) | (1, 3) => 1,
            _ => 0,
        }
    }

    /// The current generation as text, one line per row.
    pub fn pretty_state(&self) -> (text: String)
        ensures
            text@ == grid_text(self@.current),
    {
        let mut s = String::new();
        for x in 0..SIZE
            invariant
                s@ == rows_text(self@.current, x as nat),
        {
            let line = debug_line(&self.state[x]);
            s.append(line.as_str());
        }
        s
    }

    /// The current generation, as stored.
    pub fn snapshot(&self) -> (cells: Universe)
        ensures
            binary(cells),
            grid_of(cells) == self@.current,
    {
        proof {
            use_type_invariant(self);
        }
        self.state
    }

    /// The generation before the current one, as stored.
    pub fn previous(&self) -> (cells: Universe)
        ensures
            binary(cells),
            grid_of(cells) == self@.previous,
    {
        proof {
            use_type_invariant(self);
        }
        self.last
    }

    /// The number of steps completed so far.
    pub fn generation(&self) -> (steps: u32)
        ensures
            steps == self@.generation,
    {
        self.ticks
    }
}

/// Writes one row as a line of text.
fn debug_line(line: &[u8; SIZE]) -> (text: String)
    ensures
        text@ == row_text(row_of(*line)),
{
    let mut s = String::new();
    s.append("[");
    proof {
        reveal_strlit("[");
    }
    for y in 0..SIZE
        invariant
            s@ == seq!['['] + cells_text(row_of(*line), y as nat),
    {
        if y > 0 {
            s.append(", ");
        }
        if line[y] == 1 {
            s.append("1");
        } else {
            s.append("0");
        }
        proof {
            reveal_strlit(", ");
            reveal_strlit("0");
            reveal_strlit("1");
            assert(s@ =~= seq!['['] + cells_text(row_of(*line), (y + 1) as nat));
        }
    }
    s.append("]\n");
    proof {
        reveal_strlit("]\n");
    }
    s
}

/// Live cells among the first `n` columns of the row at offset `di` around
/// `(x, y)`, the centre left out.
spec fn counted_in_row(g: Grid, x: int, y: int, di: int, n: int) -> int {
    (if n >= 1 {
        census(torus(g, x + di, y - 1)) as int
    } else {
        0
    }) + (if n >= 2 && di != 0 {
        census(torus(g, x + di, y)) as int
    } else {
        0
    }) + (if n >= 3 {
        census(torus(g, x + di, y + 1)) as int
    } else {
        0
    })
}

/// Live cells among the first `n` rows around `(x, y)`, the centre left out.
spec fn counted_in_rows(g: Grid, x: int, y: int, n: int) -> int {
    (if n >= 1 {
        counted_in_row(g, x, y, -1, 3)
    } else {
        0
    }) + (if n >= 2 {
        counted_in_row(g, x, y, 0, 3)
    } else {
        0
    }) + (if n >= 3 {
        counted_in_row(g, x, y, 1, 3)
    } else {
        0
    })
}

/// A stored byte is the census of the cell it stands for, wherever on the
/// torus that cell is addressed.
proof fn lemma_stored_census(u: Universe, x: int, y: int)
    requires
        binary(u),
    ensures
        in_bounds(wrap(x), wrap(y)),
        wrap(x + SIZE) == wrap(x),
        wrap(y + SIZE) == wrap(y),
        u[wrap(x)][wrap(y)] == census(torus(grid_of(u), x, y)),
{
}

} // verus!
