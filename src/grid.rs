use vstd::prelude::*;

verus! {

/// The mathematical value of a field: its rows, each a sequence of cells.
pub open spec fn cells_of(field: &Vec<Vec<bool>>) -> Seq<Seq<bool>> {
    field@.map_values(|row: Vec<bool>| row@)
}

/// A grid has at least one row and one column, and all rows have the same length.
pub open spec fn is_grid(g: Seq<Seq<bool>>) -> bool {
    &&& g.len() > 0
    &&& g[0].len() > 0
    &&& forall|y: int| 0 <= y < g.len() ==> #[trigger] g[y].len() == g[0].len()
}

/// Number of columns of a grid.
pub open spec fn width(g: Seq<Seq<bool>>) -> int {
    g[0].len() as int
}

/// Number of rows of a grid.
pub open spec fn height(g: Seq<Seq<bool>>) -> int {
    g.len() as int
}

/// Whether `(x, y)` lies on the grid.
pub open spec fn in_grid(g: Seq<Seq<bool>>, x: int, y: int) -> bool {
    0 <= x < width(g) && 0 <= y < height(g)
}

/// Whether `(x, y)` lies on the grid and its cell is alive; cells off the grid count as dead.
pub open spec fn alive(g: Seq<Seq<bool>>, x: int, y: int) -> bool {
    in_grid(g, x, y) && g[y][x]
}

/// 1 for a living cell, 0 otherwise.
pub open spec fn alive_count(g: Seq<Seq<bool>>, x: int, y: int) -> int {
    if alive(g, x, y) { 1 } else { 0 }
}

/// Number of living cells among the eight cells around `(x, y)`.
pub open spec fn neighbors(g: Seq<Seq<bool>>, x: int, y: int) -> int {
    alive_count(g, x - 1, y - 1) + alive_count(g, x, y - 1) + alive_count(g, x + 1, y - 1)
        + alive_count(g, x - 1, y) + alive_count(g, x + 1, y)
        + alive_count(g, x - 1, y + 1) + alive_count(g, x, y + 1) + alive_count(g, x + 1, y + 1)
}

/// The state of the cell at `(x, y)`.
pub fn get(field: &Vec<Vec<bool>>, x: usize, y: usize) -> (r: bool)
    requires
        is_grid(cells_of(field)),
        in_grid(cells_of(field), x as int, y as int),
    ensures
        r == cells_of(field)[y as int][x as int],
        r == alive(cells_of(field), x as int, y as int),
{
    let ghost g = cells_of(field);
    assert(g[y as int] == field@[y as int]@);
    field[y][x]
}

/// 1 when `(x + dx - 1, y + dy - 1)` lies on the grid and is alive, else 0.
fn count_at(field: &Vec<Vec<bool>>, x: usize, y: usize, dx: usize, dy: usize) -> (r: u32)
    requires
        is_grid(cells_of(field)),
        in_grid(cells_of(field), x as int, y as int),
        dx <= 2,
        dy <= 2,
    ensures
        r as int == alive_count(cells_of(field), x + dx - 1, y + dy - 1),
{
    let w = field[0].len();
    let h = field.len();
    if (dx == 0 && x == 0) || (dy == 0 && y == 0) || (dx == 2 && x == w - 1) || (dy == 2 && y
        == h - 1) {
        0
    } else if get(field, x + dx - 1, y + dy - 1) {
        1
    } else {
        0
    }
}

/// Counts the living cells of the Moore neighbourhood of `(x, y)`. The grid does not wrap:
/// positions beyond an edge are missing and contribute nothing.
pub fn get_num_of_alive_cells(field: &mut Vec<Vec<bool>>, x: usize, y: usize) -> (r: u32)
    requires
        is_grid(cells_of(old(field))),
        in_grid(cells_of(old(field)), x as int, y as int),
    ensures
        *final(field) == *old(field),
        r as int == neighbors(cells_of(old(field)), x as int, y as int),
        r <= 8,
{
    neighbor_count(field, x, y)
}

/// The neighbour count of `(x, y)`, read through a shared borrow.
pub(crate) fn neighbor_count(f: &Vec<Vec<bool>>, x: usize, y: usize) -> (r: u32)
    requires
        is_grid(cells_of(f)),
        in_grid(cells_of(f), x as int, y as int),
    ensures
        r as int == neighbors(cells_of(f), x as int, y as int),
        r <= 8,
{
    let top = count_at(f, x, y, 0, 0) + count_at(f, x, y, 1, 0) + count_at(f, x, y, 2, 0);
    let middle = count_at(f, x, y, 0, 1) + count_at(f, x, y, 2, 1);
    let bottom = count_at(f, x, y, 0, 2) + count_at(f, x, y, 1, 2) + count_at(f, x, y, 2, 2);
    top + middle + bottom
}

/// Writes `value` at `(x, y)` when `0 < x < width` and `0 < y < height`, and says whether it
/// wrote. Row 0 and column 0 are never written: every stamped pattern keeps a one-cell inset
/// from the top and left edges.
pub fn set(x: usize, y: usize, value: bool, field: &mut Vec<Vec<bool>>) -> (r: bool)
    requires
        is_grid(cells_of(old(field))),
    ensures
        r == (0 < x < width(cells_of(old(field))) && 0 < y < height(cells_of(old(field)))),
        cells_of(final(field)) == if r {
            cells_of(old(field)).update(
                y as int,
                cells_of(old(field))[y as int].update(x as int, value),
            )
        } else {
            cells_of(old(field))
        },
{
    let ghost g = cells_of(field);
    if 0 < x && x < field[0].len() && 0 < y && y < field.len() {
        assert(g[y as int].len() == g[0].len());
        field[y][x] = value;
        assert(cells_of(field) =~= g.update(y as int, g[y as int].update(x as int, value)));
        return true;
    }
    false
}

/// A grid of the given size with every cell dead.
pub open spec fn dead_grid(width: int, height: int) -> Seq<Seq<bool>> {
    Seq::new(height as nat, |y: int| Seq::new(width as nat, |x: int| false))
}

/// A field of `height` rows of `width` dead cells.
pub fn new_field(width: usize, height: usize) -> (r: Vec<Vec<bool>>)
    requires
        width > 0,
        height > 0,
    ensures
        cells_of(&r) == dead_grid(width as int, height as int),
        is_grid(cells_of(&r)),
{
    let mut r: Vec<Vec<bool>> = Vec::new();
    for y in 0..height
        invariant
            r@.len() == y,
            forall|i: int| 0 <= i < y ==> #[trigger] r@[i]@ == Seq::new(width as nat, |x: int| false),
    {
        let mut row: Vec<bool> = Vec::new();
        for x in 0..width
            invariant
                row@.len() == x,
                forall|j: int| 0 <= j < x ==> !#[trigger] row@[j],
        {
            row.push(false);
        }
        assert(row@ =~= Seq::new(width as nat, |x: int| false));
        r.push(row);
    }
    assert(cells_of(&r) =~= dead_grid(width as int, height as int));
    r
}

/// Kills every cell of the field; its size stays.
pub fn clear(field: &mut Vec<Vec<bool>>)
    requires
        is_grid(cells_of(old(field))),
    ensures
        cells_of(final(field)) == dead_grid(width(cells_of(old(field))), height(cells_of(old(field)))),
{
    let ghost g = cells_of(field);
    let w = field[0].len();
    let h = field.len();
    assert(g[0] == field@[0]@);
    *field = new_field(w, h);
}

} // verus!
