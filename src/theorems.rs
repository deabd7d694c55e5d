//! Facts about the model of the grid that hold across several operations.
use vstd::prelude::*;

use crate::grid::{
    after, before, dead_grid, height_of, in_grid, is_grid, lemma_neighbour_count, live,
    neighbour_count, next_generation, next_state, set_cell, width_of,
};

verus! {

/// The grid reached from `g` after `n` generations.
pub open spec fn generation(g: Seq<Seq<bool>>, n: nat) -> Seq<Seq<bool>>
    decreases n,
{
    if n == 0 {
        g
    } else {
        next_generation(generation(g, (n - 1) as nat))
    }
}

/// A cleared grid holds no live cell: every cell that `clear_grid` leaves
/// reads as dead.
pub proof fn cleared_cell_is_dead(w: nat, h: nat, x: int, y: int)
    requires
        w > 0,
        h > 0,
        0 <= x < w,
        0 <= y < h,
    ensures
        is_grid(dead_grid(w, h)),
        !dead_grid(w, h)[x][y],
{
}

/// Setting a cell and then reading it gives back the state that was set,
/// and no other cell changes.
pub proof fn set_then_read(g: Seq<Seq<bool>>, x: int, y: int, alive: bool)
    requires
        is_grid(g),
        in_grid(g, x, y),
    ensures
        is_grid(set_cell(g, x, y, alive)),
        width_of(set_cell(g, x, y, alive)) == width_of(g),
        height_of(set_cell(g, x, y, alive)) == height_of(g),
        set_cell(g, x, y, alive)[x][y] == alive,
        set_cell(set_cell(g, x, y, alive), x, y, alive) == set_cell(g, x, y, alive),
        forall|i: int, j: int|
            in_grid(g, i, j) && (i != x || j != y) ==> #[trigger] set_cell(g, x, y, alive)[i][j]
                == g[i][j],
{
    let s = set_cell(g, x, y, alive);
    assert(set_cell(s, x, y, alive) =~~= s);
}

/// A grid whose every cell is dead has no live neighbour anywhere, so the
/// next generation is dead too.
proof fn dead_grid_step(w: nat, h: nat)
    requires
        w > 0,
        h > 0,
    ensures
        next_generation(dead_grid(w, h)) == dead_grid(w, h),
{
    let g = dead_grid(w, h);
    assert forall|x: int, y: int| 0 <= x < w && 0 <= y < h implies !next_generation(
        g,
    )[x][y] by {
        lemma_neighbour_count(g, x, y);
    }
    assert(next_generation(g) =~~= g);
}

/// An all-dead grid stays all-dead however many generations pass.
pub proof fn dead_grid_stays_dead(w: nat, h: nat, n: nat)
    requires
        w > 0,
        h > 0,
    ensures
        generation(dead_grid(w, h), n) == dead_grid(w, h),
    decreases n,
{
    if n > 0 {
        dead_grid_stays_dead(w, h, (n - 1) as nat);
        dead_grid_step(w, h);
    }
}

/// Grids that agree cell by cell have the same next generation: the step
/// depends on nothing but the current cells.
pub proof fn next_generation_is_determined(a: Seq<Seq<bool>>, b: Seq<Seq<bool>>)
    requires
        is_grid(a),
        is_grid(b),
        width_of(a) == width_of(b),
        height_of(a) == height_of(b),
        forall|x: int, y: int| in_grid(a, x, y) ==> #[trigger] a[x][y] == b[x][y],
    ensures
        next_generation(a) == next_generation(b),
{
    assert forall|x: int, y: int| in_grid(a, x, y) implies #[trigger] next_generation(a)[x][y]
        == next_generation(b)[x][y] by {
        lemma_neighbour_count(a, x, y);
        lemma_neighbour_count(b, x, y);
    }
    assert(next_generation(a) =~~= next_generation(b));
}

/// How much a live cell at `(0, 0)` adds to the neighbour count of `(x, y)`
/// compared with a dead one there.
pub open spec fn corner_contribution(g: Seq<Seq<bool>>, x: int, y: int) -> int {
    neighbour_count(set_cell(g, 0, 0, true), x, y) - neighbour_count(set_cell(g, 0, 0, false), x, y)
}

/// A live cell at `(0, 0)` is a neighbour of `(w - 1, 0)`, `(0, h - 1)` and
/// `(w - 1, h - 1)`: the edges of the grid are joined. On a grid of at least
/// three cells each way it counts exactly once for each of them.
pub proof fn corner_neighbours_wrap(g: Seq<Seq<bool>>)
    requires
        is_grid(g),
    ensures
        ({
            let (w, h) = (width_of(g), height_of(g));
            &&& corner_contribution(g, w - 1, 0) >= 1
            &&& corner_contribution(g, 0, h - 1) >= 1
            &&& corner_contribution(g, w - 1, h - 1) >= 1
            &&& w >= 3 && h >= 3 ==> corner_contribution(g, w - 1, 0) == 1
                && corner_contribution(g, 0, h - 1) == 1
                && corner_contribution(g, w - 1, h - 1) == 1
        }),
{
    let (w, h) = (width_of(g), height_of(g));
    let on = set_cell(g, 0, 0, true);
    let off = set_cell(g, 0, 0, false);
    set_then_read(g, 0, 0, true);
    set_then_read(g, 0, 0, false);
    lemma_neighbour_count(on, w - 1, 0);
    lemma_neighbour_count(off, w - 1, 0);
    lemma_neighbour_count(on, 0, h - 1);
    lemma_neighbour_count(off, 0, h - 1);
    lemma_neighbour_count(on, w - 1, h - 1);
    lemma_neighbour_count(off, w - 1, h - 1);
}

/// A `w x h` grid whose only live cells form the 2x2 square with top-left
/// corner `(bx, by)`, the square running across an edge where it meets one.
pub open spec fn block_grid(w: nat, h: nat, bx: int, by: int) -> Seq<Seq<bool>> {
    Seq::new(
        w,
        |x: int|
            Seq::new(
                h,
                |y: int|
                    (x == bx || x == after(bx, w as int)) && (y == by || y == after(by, h as int)),
            ),
    )
}

/// A 2x2 block with dead cells all round it does not change.
pub proof fn block_is_still(w: nat, h: nat, bx: int, by: int)
    requires
        w >= 4,
        h >= 4,
        0 <= bx < w,
        0 <= by < h,
    ensures
        next_generation(block_grid(w, h, bx, by)) == block_grid(w, h, bx, by),
{
    let g = block_grid(w, h, bx, by);
    assert forall|x: int, y: int| 0 <= x < w && 0 <= y < h implies next_generation(g)[x][y]
        == g[x][y] by {
        lemma_neighbour_count(g, x, y);
    }
    assert(next_generation(g) =~~= g);
}

/// A `w x h` grid whose only live cells are the three in a row centred on
/// `(cx, cy)`: across when `across`, else down.
pub open spec fn blinker_grid(w: nat, h: nat, cx: int, cy: int, across: bool) -> Seq<Seq<bool>> {
    Seq::new(
        w,
        |x: int|
            Seq::new(
                h,
                |y: int|
                    if across {
                        y == cy && (x == before(cx, w as int) || x == cx || x == after(
                            cx,
                            w as int,
                        ))
                    } else {
                        x == cx && (y == before(cy, h as int) || y == cy || y == after(
                            cy,
                            h as int,
                        ))
                    },
            ),
    )
}

/// Three live cells in a row turn into three in a column through the
/// middle one, and back, on a grid wide and high enough that the pattern
/// does not meet itself across an edge.
pub proof fn blinker_oscillates(w: nat, h: nat, cx: int, cy: int, across: bool)
    requires
        w >= 5,
        h >= 5,
        0 <= cx < w,
        0 <= cy < h,
    ensures
        next_generation(blinker_grid(w, h, cx, cy, across)) == blinker_grid(w, h, cx, cy, !across),
        generation(blinker_grid(w, h, cx, cy, across), 2) == blinker_grid(w, h, cx, cy, across),
{
    blinker_turns(w, h, cx, cy, across);
    blinker_turns(w, h, cx, cy, !across);
    assert(generation(blinker_grid(w, h, cx, cy, across), 2) == next_generation(
        next_generation(blinker_grid(w, h, cx, cy, across)),
    )) by {
        reveal_with_fuel(generation, 3);
    }
}

proof fn blinker_turns(w: nat, h: nat, cx: int, cy: int, across: bool)
    requires
        w >= 5,
        h >= 5,
        0 <= cx < w,
        0 <= cy < h,
    ensures
        next_generation(blinker_grid(w, h, cx, cy, across)) == blinker_grid(w, h, cx, cy, !across),
{
    let g = blinker_grid(w, h, cx, cy, across);
    let n = blinker_grid(w, h, cx, cy, !across);
    assert forall|x: int, y: int| 0 <= x < w && 0 <= y < h implies next_generation(g)[x][y]
        == n[x][y] by {
        lemma_neighbour_count(g, x, y);
    }
    assert(next_generation(g) =~~= n);
}

} // verus!
