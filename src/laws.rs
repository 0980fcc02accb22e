//! Facts about the transition rule, and about well-known patterns under it.
use vstd::prelude::*;
use crate::grid::{is_grid, in_grid, alive, neighbors};
use crate::engine::{next_state, next_gen, generations};

verus! {

/// A living cell with fewer than two living neighbours is dead after one step.
pub proof fn lemma_underpopulation(g: Seq<Seq<bool>>, x: int, y: int)
    requires
        is_grid(g),
        in_grid(g, x, y),
        g[y][x],
        neighbors(g, x, y) < 2,
    ensures
        !next_gen(g)[y][x],
{
}

/// A living cell with two or three living neighbours is still alive after one step.
pub proof fn lemma_survival(g: Seq<Seq<bool>>, x: int, y: int)
    requires
        is_grid(g),
        in_grid(g, x, y),
        g[y][x],
        neighbors(g, x, y) == 2 || neighbors(g, x, y) == 3,
    ensures
        next_gen(g)[y][x],
{
}

/// A living cell with four or more living neighbours is dead after one step.
pub proof fn lemma_overpopulation(g: Seq<Seq<bool>>, x: int, y: int)
    requires
        is_grid(g),
        in_grid(g, x, y),
        g[y][x],
        neighbors(g, x, y) >= 4,
    ensures
        !next_gen(g)[y][x],
{
}

/// A dead cell with exactly three living neighbours is alive after one step.
pub proof fn lemma_reproduction(g: Seq<Seq<bool>>, x: int, y: int)
    requires
        is_grid(g),
        in_grid(g, x, y),
        !g[y][x],
        neighbors(g, x, y) == 3,
    ensures
        next_gen(g)[y][x],
{
}

/// The next generation depends on the grid's value alone: equal grids step to equal grids.
pub proof fn lemma_step_deterministic(a: Seq<Seq<bool>>, b: Seq<Seq<bool>>)
    requires
        is_grid(a),
        a == b,
    ensures
        next_gen(a) == next_gen(b),
{
}

/// Stepping keeps the grid's dimensions.
pub proof fn lemma_next_gen_is_grid(g: Seq<Seq<bool>>)
    requires
        is_grid(g),
    ensures
        is_grid(next_gen(g)),
        next_gen(g).len() == g.len(),
        next_gen(g)[0].len() == g[0].len(),
{
}

/// The living cells of `g` are exactly those where `f` holds, on the grid.
pub open spec fn shows(g: Seq<Seq<bool>>, f: spec_fn(int, int) -> bool) -> bool {
    forall|x: int, y: int| in_grid(g, x, y) ==> #[trigger] g[y][x] == f(x, y)
}

/// Every position where `f` holds lies on the grid.
pub open spec fn inside(g: Seq<Seq<bool>>, f: spec_fn(int, int) -> bool) -> bool {
    forall|x: int, y: int| #[trigger] f(x, y) ==> in_grid(g, x, y)
}

/// 1 where `f` holds, 0 elsewhere.
pub open spec fn plane_count(f: spec_fn(int, int) -> bool, x: int, y: int) -> int {
    if f(x, y) { 1 } else { 0 }
}

/// Living neighbours of `(x, y)` on the unbounded plane whose living cells are those of `f`.
pub open spec fn plane_neighbors(f: spec_fn(int, int) -> bool, x: int, y: int) -> int {
    plane_count(f, x - 1, y - 1) + plane_count(f, x, y - 1) + plane_count(f, x + 1, y - 1)
        + plane_count(f, x - 1, y) + plane_count(f, x + 1, y)
        + plane_count(f, x - 1, y + 1) + plane_count(f, x, y + 1) + plane_count(f, x + 1, y + 1)
}

/// Whether `f2` is the generation after `f` on the unbounded plane.
pub open spec fn plane_successor(f: spec_fn(int, int) -> bool, f2: spec_fn(int, int) -> bool) -> bool {
    forall|x: int, y: int| #[trigger] f2(x, y) == next_state(f(x, y), plane_neighbors(f, x, y))
}

/// A pattern that lies wholly on the grid steps on the grid as it would on the unbounded plane.
proof fn lemma_step_shape(g: Seq<Seq<bool>>, f: spec_fn(int, int) -> bool, f2: spec_fn(int, int) -> bool)
    requires
        is_grid(g),
        shows(g, f),
        inside(g, f),
        plane_successor(f, f2),
    ensures
        shows(next_gen(g), f2),
{
    assert forall|x: int, y: int| #[trigger] alive(g, x, y) == f(x, y) by {
        if in_grid(g, x, y) {
            assert(g[y][x] == f(x, y));
        }
    }
    assert forall|x: int, y: int| in_grid(next_gen(g), x, y) implies #[trigger] next_gen(g)[y][x] == f2(x, y) by {
        assert(g[y].len() == g[0].len());
        assert(neighbors(g, x, y) == plane_neighbors(f, x, y));
        assert(f2(x, y) == next_state(f(x, y), plane_neighbors(f, x, y)));
    }
}

/// Two grids of one size that show the same pattern are equal.
proof fn lemma_shows_same(a: Seq<Seq<bool>>, b: Seq<Seq<bool>>, f: spec_fn(int, int) -> bool)
    requires
        is_grid(a),
        is_grid(b),
        a.len() == b.len(),
        a[0].len() == b[0].len(),
        shows(a, f),
        shows(b, f),
    ensures
        a == b,
{
    assert forall|y: int| 0 <= y < a.len() implies #[trigger] a[y] == b[y] by {
        assert(a[y].len() == a[0].len() && b[y].len() == b[0].len());
        assert forall|x: int| 0 <= x < a[y].len() implies a[y][x] == b[y][x] by {
            assert(a[y][x] == f(x, y));
            assert(b[y][x] == f(x, y));
        }
        assert(a[y] =~= b[y]);
    }
    assert(a =~= b);
}

/// The 2×2 block with top-left cell `(bx, by)`.
pub open spec fn block(bx: int, by: int, x: int, y: int) -> bool {
    bx <= x <= bx + 1 && by <= y <= by + 1
}

/// Three cells in a row centred on `(cx, cy)`.
pub open spec fn blinker_horizontal(cx: int, cy: int, x: int, y: int) -> bool {
    y == cy && cx - 1 <= x <= cx + 1
}

/// Three cells in a column centred on `(cx, cy)`.
pub open spec fn blinker_vertical(cx: int, cy: int, x: int, y: int) -> bool {
    x == cx && cy - 1 <= y <= cy + 1
}

/// A grid whose only living cells are a whole 2×2 block at `(bx, by)`.
pub open spec fn holds_block(g: Seq<Seq<bool>>, bx: int, by: int) -> bool {
    &&& in_grid(g, bx, by)
    &&& in_grid(g, bx + 1, by + 1)
    &&& shows(g, |x: int, y: int| block(bx, by, x, y))
}

/// A grid whose only living cells are a horizontal blinker centred on `(cx, cy)`, with the
/// vertical phase on the grid too.
pub open spec fn holds_blinker(g: Seq<Seq<bool>>, cx: int, cy: int) -> bool {
    &&& in_grid(g, cx - 1, cy - 1)
    &&& in_grid(g, cx + 1, cy + 1)
    &&& shows(g, |x: int, y: int| blinker_horizontal(cx, cy, x, y))
}

/// Stepping a grid `k` times keeps its dimensions.
pub proof fn lemma_generations_is_grid(g: Seq<Seq<bool>>, k: nat)
    requires
        is_grid(g),
    ensures
        is_grid(generations(g, k)),
        generations(g, k).len() == g.len(),
        generations(g, k)[0].len() == g[0].len(),
    decreases k,
{
    if k > 0 {
        lemma_generations_is_grid(g, (k - 1) as nat);
        lemma_next_gen_is_grid(generations(g, (k - 1) as nat));
    }
}

/// A 2×2 block alone on the grid is a still life: it is unchanged after any number of steps.
pub proof fn lemma_block_still_life(g: Seq<Seq<bool>>, bx: int, by: int, k: nat)
    requires
        is_grid(g),
        holds_block(g, bx, by),
    ensures
        generations(g, k) == g,
    decreases k,
{
    if k > 0 {
        lemma_block_still_life(g, bx, by, (k - 1) as nat);
        let f = |x: int, y: int| block(bx, by, x, y);
        assert(plane_successor(f, f));
        lemma_step_shape(g, f, f);
        lemma_next_gen_is_grid(g);
        lemma_shows_same(next_gen(g), g, f);
    }
}

/// A horizontal blinker alone on the grid turns vertical after one step.
pub proof fn lemma_blinker_turns(g: Seq<Seq<bool>>, cx: int, cy: int)
    requires
        is_grid(g),
        holds_blinker(g, cx, cy),
    ensures
        shows(next_gen(g), |x: int, y: int| blinker_vertical(cx, cy, x, y)),
{
    let h = |x: int, y: int| blinker_horizontal(cx, cy, x, y);
    let v = |x: int, y: int| blinker_vertical(cx, cy, x, y);
    assert(plane_successor(h, v));
    lemma_step_shape(g, h, v);
}

/// A blinker alone on the grid has period two: it is back after two steps.
pub proof fn lemma_blinker_period(g: Seq<Seq<bool>>, cx: int, cy: int)
    requires
        is_grid(g),
        holds_blinker(g, cx, cy),
    ensures
        generations(g, 1) != g,
        generations(g, 2) == g,
{
    let h = |x: int, y: int| blinker_horizontal(cx, cy, x, y);
    let v = |x: int, y: int| blinker_vertical(cx, cy, x, y);
    lemma_blinker_turns(g, cx, cy);
    let g1 = next_gen(g);
    lemma_next_gen_is_grid(g);
    assert(generations(g, 0) == g);
    assert(generations(g, 1) == g1);
    assert(g1[cy - 1][cx] != g[cy - 1][cx]) by {
        assert(g1[cy - 1][cx] == v(cx, cy - 1));
        assert(g[cy - 1][cx] == h(cx, cy - 1));
    }
    assert(plane_successor(v, h));
    lemma_step_shape(g1, v, h);
    lemma_next_gen_is_grid(g1);
    assert(generations(g, 2) == next_gen(generations(g, 1)));
    lemma_shows_same(next_gen(g1), g, h);
}

/// The cells of a glider heading right and down, in phase `k` of its four phases, as offsets
/// from the top-left corner of the 4×4 box that holds all four phases.
pub open spec fn glider(k: int, dx: int, dy: int) -> bool {
    let c = (dx, dy);
    if k == 0 {
        c == (1int, 0int) || c == (2int, 1int) || c == (0int, 2int) || c == (1int, 2int) || c
            == (2int, 2int)
    } else if k == 1 {
        c == (0int, 1int) || c == (2int, 1int) || c == (1int, 2int) || c == (2int, 2int) || c
            == (1int, 3int)
    } else if k == 2 {
        c == (2int, 1int) || c == (0int, 2int) || c == (2int, 2int) || c == (1int, 3int) || c
            == (2int, 3int)
    } else {
        c == (1int, 1int) || c == (2int, 2int) || c == (3int, 2int) || c == (1int, 3int) || c
            == (2int, 3int)
    }
}

/// A grid whose only living cells are a glider in its first phase at `(gx, gy)`, with room on
/// the grid for the 4×4 box that it crosses in four steps.
pub open spec fn holds_glider(g: Seq<Seq<bool>>, gx: int, gy: int) -> bool {
    &&& in_grid(g, gx, gy)
    &&& in_grid(g, gx + 3, gy + 3)
    &&& shows(g, |x: int, y: int| glider(0, x - gx, y - gy))
}

/// One step of the glider, from phase `k` to the next, inside its box.
proof fn lemma_glider_phase(g: Seq<Seq<bool>>, gx: int, gy: int, k: int)
    requires
        is_grid(g),
        0 <= k < 3,
        in_grid(g, gx, gy),
        in_grid(g, gx + 3, gy + 3),
        shows(g, |x: int, y: int| glider(k, x - gx, y - gy)),
    ensures
        shows(next_gen(g), |x: int, y: int| glider(k + 1, x - gx, y - gy)),
        is_grid(next_gen(g)),
        in_grid(next_gen(g), gx, gy),
        in_grid(next_gen(g), gx + 3, gy + 3),
{
    let f = |x: int, y: int| glider(k, x - gx, y - gy);
    let f2 = |x: int, y: int| glider(k + 1, x - gx, y - gy);
    assert(plane_successor(f, f2));
    lemma_step_shape(g, f, f2);
    lemma_next_gen_is_grid(g);
}

/// After four steps a glider alone on the grid is back in its first phase, moved one cell
/// right and one cell down, and every other cell is dead.
pub proof fn lemma_glider_moves(g: Seq<Seq<bool>>, gx: int, gy: int)
    requires
        is_grid(g),
        holds_glider(g, gx, gy),
    ensures
        shows(generations(g, 4), |x: int, y: int| glider(0, x - (gx + 1), y - (gy + 1))),
{
    lemma_glider_phase(g, gx, gy, 0);
    let g1 = next_gen(g);
    lemma_glider_phase(g1, gx, gy, 1);
    let g2 = next_gen(g1);
    lemma_glider_phase(g2, gx, gy, 2);
    let g3 = next_gen(g2);
    let f = |x: int, y: int| glider(3, x - gx, y - gy);
    let f2 = |x: int, y: int| glider(0, x - (gx + 1), y - (gy + 1));
    assert(plane_successor(f, f2));
    lemma_step_shape(g3, f, f2);
    assert(generations(g, 0) == g);
    assert(generations(g, 1) == g1);
    assert(generations(g, 2) == g2);
    assert(generations(g, 3) == g3);
    assert(generations(g, 4) == next_gen(g3));
}

} // verus!
