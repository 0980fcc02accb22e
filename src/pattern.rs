use vstd::prelude::*;
use crate::grid::{cells_of, is_grid};

verus! {

/// The cells of the Gosper glider gun, as offsets from its anchor: a block on each side, the
/// left shuttle and the right shuttle.
pub open spec fn glider_gun() -> Seq<(usize, usize)> {
    seq![
        (1, 5), (2, 5), (1, 6), (2, 6),
        (35, 3), (36, 3), (35, 4), (36, 4),
        (11, 5), (11, 6), (11, 7), (12, 4), (12, 8), (13, 3), (13, 9), (14, 3), (14, 9),
        (15, 6), (16, 4), (16, 8), (17, 5), (17, 6), (17, 7), (18, 6),
        (21, 3), (21, 4), (21, 5), (22, 3), (22, 4), (22, 5), (23, 2), (23, 6),
        (25, 2), (25, 6), (25, 1), (25, 7),
    ]
}

/// Whether one of the offsets of `p`, placed at anchor `(ax, ay)`, lands on `(x, y)`.
pub open spec fn covers(p: Seq<(usize, usize)>, ax: int, ay: int, x: int, y: int) -> bool {
    exists|k: int| 0 <= k < p.len() && p[k].0 + ax == x && p[k].1 + ay == y
}

/// The grid after the cells of `p` placed at `(ax, ay)` are set alive, row 0 and column 0
/// excepted; cells that fall off the grid are dropped.
pub open spec fn stamp(g: Seq<Seq<bool>>, p: Seq<(usize, usize)>, ax: int, ay: int) -> Seq<
    Seq<bool>,
> {
    Seq::new(
        g.len(),
        |y: int|
            Seq::new(g[y].len(), |x: int| g[y][x] || (0 < x && 0 < y && covers(p, ax, ay, x, y))),
    )
}

/// The offsets of the glider gun, in the order they are stamped.
pub fn glider_gun_cells() -> (r: Vec<(usize, usize)>)
    ensures
        r@ == glider_gun(),
{
    let r = vec![
        (1, 5), (2, 5), (1, 6), (2, 6),
        (35, 3), (36, 3), (35, 4), (36, 4),
        (11, 5), (11, 6), (11, 7), (12, 4), (12, 8), (13, 3), (13, 9), (14, 3), (14, 9),
        (15, 6), (16, 4), (16, 8), (17, 5), (17, 6), (17, 7), (18, 6),
        (21, 3), (21, 4), (21, 5), (22, 3), (22, 4), (22, 5), (23, 2), (23, 6),
        (25, 2), (25, 6), (25, 1), (25, 7),
    ];
    assert(r@ =~= glider_gun());
    r
}

/// Sets alive every cell of `p` placed at anchor `(x, y)`, as `set` does: row 0, column 0
/// and cells beyond the grid are left alone.
pub fn stamp_cells(p: &Vec<(usize, usize)>, x: usize, y: usize, field: &mut Vec<Vec<bool>>)
    requires
        is_grid(cells_of(old(field))),
    ensures
        cells_of(final(field)) == stamp(cells_of(old(field)), p@, x as int, y as int),
{
    let ghost g0 = cells_of(field);
    assert(cells_of(field) =~~= stamp(g0, p@.take(0), x as int, y as int));
    let w = field[0].len();
    let h = field.len();
    assert(g0[0] == field@[0]@);
    for k in 0..p.len()
        invariant
            w == g0[0].len(),
            h == g0.len(),
            cells_of(field) == stamp(g0, p@.take(k as int), x as int, y as int),
            is_grid(g0),
    {
        let ghost before = cells_of(field);
        let (dx, dy) = p[k];
        let wrote = if x <= usize::MAX - dx && y <= usize::MAX - dy {
            crate::grid::set(x + dx, y + dy, true, field)
        } else {
            false
        };
        let ghost q = p@.take(k + 1);
        assert(q.take(k as int) =~= p@.take(k as int));
        assert(q[k as int] == (dx, dy));
        assert forall|r: int, c: int|
            0 <= r < g0.len() && 0 <= c < g0[r].len() implies
            covers(q, x as int, y as int, c, r) == (covers(p@.take(k as int), x as int, y as int, c, r)
                || (q[k as int].0 + x == c && q[k as int].1 + y == r)) by {
            if covers(q, x as int, y as int, c, r) {
                let j = choose|j: int| 0 <= j < q.len() && q[j].0 + x == c && q[j].1 + y == r;
                if j < k {
                    assert(p@.take(k as int)[j] == q[j]);
                }
            }
            if covers(p@.take(k as int), x as int, y as int, c, r) {
                let j = choose|j: int| 0 <= j < k && p@.take(k as int)[j].0 + x == c
                    && p@.take(k as int)[j].1 + y == r;
                assert(q[j] == p@.take(k as int)[j]);
            }
        }
        let ghost after = cells_of(field);
        let ghost want = stamp(g0, q, x as int, y as int);
        assert forall|r: int| 0 <= r < g0.len() implies #[trigger] after[r] =~= want[r] by {
            assert forall|c: int| 0 <= c < g0[r].len() implies #[trigger] after[r][c] == want[r][c] by {
                let hit = q[k as int].0 + x == c && q[k as int].1 + y == r;
                if wrote && hit {
                    assert(after[r][c]);
                } else if wrote {
                    assert(after[r][c] == before[r][c]);
                } else {
                    assert(before.len() == g0.len() && before[0].len() == g0[0].len());
                    assert(g0[r].len() == g0[0].len());
                    assert(!(hit && 0 < c && 0 < r));
                }
                assert(before[r][c] == (g0[r][c] || (0 < c && 0 < r && covers(
                    p@.take(k as int),
                    x as int,
                    y as int,
                    c,
                    r,
                ))));
            }
        }
        assert(after =~= want);
    }
    assert(p@.take(p@.len() as int) =~= p@);
}

/// Stamps pattern `n` at anchor `(x, y)`: pattern 0 is the glider gun, any other number
/// stamps nothing.
pub fn preset(n: u32, x: usize, y: usize, field: &mut Vec<Vec<bool>>)
    requires
        is_grid(cells_of(old(field))),
    ensures
        n == 0 ==> cells_of(final(field)) == stamp(
            cells_of(old(field)),
            glider_gun(),
            x as int,
            y as int,
        ),
        n != 0 ==> *final(field) == *old(field),
{
    if n == 0 {
        let gun = glider_gun_cells();
        stamp_cells(&gun, x, y, field);
    }
}

} // verus!
