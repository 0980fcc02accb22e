use vstd::prelude::*;
use crate::grid::{cells_of, is_grid, width, height, neighbors, neighbor_count};

verus! {

/// The fate of one cell: a living cell lives on with two or three living neighbours, a dead
/// cell comes alive with exactly three, and every other cell is dead afterwards.
pub open spec fn next_state(alive: bool, n: int) -> bool {
    if alive {
        n == 2 || n == 3
    } else {
        n == 3
    }
}

/// The next generation of a grid: every cell follows `next_state`, with all neighbour counts
/// taken on the grid before the step.
pub open spec fn next_gen(g: Seq<Seq<bool>>) -> Seq<Seq<bool>> {
    Seq::new(
        g.len(),
        |y: int| Seq::new(g[y].len(), |x: int| next_state(g[y][x], neighbors(g, x, y))),
    )
}

/// The grid after `k` generations.
pub open spec fn generations(g: Seq<Seq<bool>>, k: nat) -> Seq<Seq<bool>>
    decreases k,
{
    if k == 0 {
        g
    } else {
        next_gen(generations(g, (k - 1) as nat))
    }
}

/// The state of a cell after one step, given its state and its number of living neighbours.
pub fn next_cell(alive: bool, n: u32) -> (r: bool)
    ensures
        r == next_state(alive, n as int),
{
    if alive && n < 2 {
        false
    } else if alive && (n == 2 || n == 3) {
        true
    } else if alive && n > 3 {
        false
    } else {
        !alive && n == 3
    }
}

/// Computes the next generation into a fresh field of the same size; the field itself is only
/// read, so no cell sees a neighbour that was already updated.
pub fn game_step(field: &mut Vec<Vec<bool>>) -> (r: Vec<Vec<bool>>)
    requires
        is_grid(cells_of(old(field))),
    ensures
        *final(field) == *old(field),
        cells_of(&r) == next_gen(cells_of(old(field))),
        is_grid(cells_of(&r)),
{
    let f: &Vec<Vec<bool>> = field;
    let ghost g = cells_of(f);
    let w = f[0].len();
    let h = f.len();
    let mut new_field: Vec<Vec<bool>> = Vec::new();
    for y in 0..h
        invariant
            g == cells_of(f),
            is_grid(g),
            w == width(g),
            h == height(g),
            new_field@.len() == y,
            forall|i: int| 0 <= i < y ==> #[trigger] new_field@[i]@ == next_gen(g)[i],
    {
        let mut row: Vec<bool> = Vec::new();
        for x in 0..w
            invariant
                g == cells_of(f),
                is_grid(g),
                w == width(g),
                h == height(g),
                0 <= y < h,
                row@.len() == x,
                forall|j: int| 0 <= j < x ==> #[trigger] row@[j] == next_gen(g)[y as int][j],
        {
            let n = neighbor_count(f, x, y);
            row.push(next_cell(f[y][x], n));
            assert(g[y as int] == f@[y as int]@);
        }
        assert(g[y as int].len() == w);
        assert(row@ =~= next_gen(g)[y as int]);
        new_field.push(row);
    }
    assert(cells_of(&new_field) =~= next_gen(g));
    new_field
}

} // verus!
