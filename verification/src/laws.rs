//! The general facts the library promises of the transition rule, each
//! proved once and for all board contents.

use vstd::prelude::*;
use crate::model::{
    all_dead, area, cell_value, in_bounds, lemma_flat_index, lemma_index_decompose,
    live_neighbors, next_cell, step, step_n, ALIVE, DEAD,
};

verus! {

/// The Life rule, case by case: a live cell with exactly two or three
/// live neighbours survives; a live cell with fewer than two or more than
/// three dies; a dead cell with exactly three live neighbours becomes
/// alive; every other dead cell stays dead.
pub proof fn lemma_rule_correctness(w: int, h: int, cells: Seq<u8>, x: int, y: int)
    ensures
        cell_value(w, h, cells, x, y) == ALIVE && (live_neighbors(w, h, cells, x, y) == 2
            || live_neighbors(w, h, cells, x, y) == 3) ==> next_cell(w, h, cells, x, y) == ALIVE,
        cell_value(w, h, cells, x, y) == ALIVE && live_neighbors(w, h, cells, x, y) < 2
            ==> next_cell(w, h, cells, x, y) == DEAD,
        cell_value(w, h, cells, x, y) == ALIVE && live_neighbors(w, h, cells, x, y) > 3
            ==> next_cell(w, h, cells, x, y) == DEAD,
        cell_value(w, h, cells, x, y) == DEAD && live_neighbors(w, h, cells, x, y) == 3
            ==> next_cell(w, h, cells, x, y) == ALIVE,
        cell_value(w, h, cells, x, y) == DEAD && live_neighbors(w, h, cells, x, y) != 3
            ==> next_cell(w, h, cells, x, y) == DEAD,
{
}

/// One generation of an all-dead board is all-dead: no cell has three
/// live neighbours, so nothing is born.
pub proof fn lemma_dead_board_steps_dead(w: int, h: int, cells: Seq<u8>)
    requires
        cells.len() == area(w, h),
        all_dead(cells),
    ensures
        step(w, h, cells).len() == area(w, h),
        all_dead(step(w, h, cells)),
{
    if w > 0 && h > 0 {
        assert forall|u: int, v: int| cell_value(w, h, cells, u, v) == DEAD by {
            if in_bounds(w, h, u, v) {
                lemma_flat_index(w, h, u, v);
            }
        }
    }
}

/// Idempotent emptiness: an all-dead board stays all-dead through any
/// number of generations, and its cell count never changes.
pub proof fn lemma_dead_board_stays_dead(w: int, h: int, cells: Seq<u8>, n: nat)
    requires
        cells.len() == area(w, h),
        all_dead(cells),
    ensures
        step_n(w, h, cells, n).len() == area(w, h),
        all_dead(step_n(w, h, cells, n)),
    decreases n,
{
    if n > 0 {
        lemma_dead_board_stays_dead(w, h, cells, (n - 1) as nat);
        lemma_dead_board_steps_dead(w, h, step_n(w, h, cells, (n - 1) as nat));
    }
}

/// A corner cell has at most three on-grid neighbours, so on a two-valued
/// board it can never see more than three live ones.
pub proof fn lemma_corner_sees_at_most_three(w: int, h: int, cells: Seq<u8>)
    requires
        cells.len() == area(w, h),
        forall|k: int| 0 <= k < cells.len() ==> (cells[k] == DEAD || cells[k] == ALIVE),
    ensures
        0 <= live_neighbors(w, h, cells, 0, 0) <= 3,
{
    assert forall|u: int, v: int|
        cell_value(w, h, cells, u, v) == DEAD || cell_value(w, h, cells, u, v) == ALIVE by {
        if in_bounds(w, h, u, v) {
            lemma_flat_index(w, h, u, v);
        }
    }
}

/// Edge depopulation: a lone live cell in the corner `(0, 0)` of any grid
/// at least 2-by-2 sees no live neighbour at all, so it dies of
/// underpopulation, and no dead cell sees three, so the whole next
/// generation is dead.
pub proof fn lemma_lone_corner_cell_dies(w: int, h: int, cells: Seq<u8>)
    requires
        w >= 2,
        h >= 2,
        forall|u: int, v: int|
            cell_value(w, h, cells, u, v) == (if u == 0 && v == 0 {
                ALIVE
            } else {
                DEAD
            }),
    ensures
        live_neighbors(w, h, cells, 0, 0) == 0,
        forall|x: int, y: int| next_cell(w, h, cells, x, y) == DEAD,
{
}

/// Still-life stability: a 2-by-2 block of live cells with every other
/// cell dead is a fixed point of the transition — each live cell has
/// exactly three live neighbours and survives, and no dead cell has
/// exactly three, so nothing is born.
pub proof fn lemma_block_still_life(w: int, h: int, cells: Seq<u8>, i: int, j: int)
    requires
        w >= 4,
        h >= 4,
        cells.len() == area(w, h),
        0 <= i,
        i + 1 < w,
        0 <= j,
        j + 1 < h,
        forall|u: int, v: int|
            cell_value(w, h, cells, u, v) == (if i <= u <= i + 1 && j <= v <= j + 1 {
                ALIVE
            } else {
                DEAD
            }),
    ensures
        forall|x: int, y: int| next_cell(w, h, cells, x, y) == cell_value(w, h, cells, x, y),
        step(w, h, cells) == cells,
{
    assert forall|k: int| 0 <= k < cells.len() implies step(w, h, cells)[k] == cells[k] by {
        lemma_index_decompose(w, h, k);
    }
    assert(step(w, h, cells) =~= cells);
}

/// Exactly the three cells `(cx - 1, cy)`, `(cx, cy)` and `(cx + 1, cy)`
/// are alive: a horizontal blinker centred at `(cx, cy)`.
pub open spec fn horizontal_blinker(w: int, h: int, cells: Seq<u8>, cx: int, cy: int) -> bool {
    forall|u: int, v: int|
        cell_value(w, h, cells, u, v) == (if v == cy && cx - 1 <= u <= cx + 1 {
            ALIVE
        } else {
            DEAD
        })
}

/// Exactly the three cells `(cx, cy - 1)`, `(cx, cy)` and `(cx, cy + 1)`
/// are alive: a vertical blinker centred at `(cx, cy)`.
pub open spec fn vertical_blinker(w: int, h: int, cells: Seq<u8>, cx: int, cy: int) -> bool {
    forall|u: int, v: int|
        cell_value(w, h, cells, u, v) == (if u == cx && cy - 1 <= v <= cy + 1 {
            ALIVE
        } else {
            DEAD
        })
}

/// One generation turns a horizontal blinker whose centre keeps one cell
/// of margin to every edge into the vertical blinker with the same
/// centre.
pub proof fn lemma_blinker_turns_vertical(w: int, h: int, cells: Seq<u8>, cx: int, cy: int)
    requires
        1 <= cx,
        cx + 1 < w,
        1 <= cy,
        cy + 1 < h,
        horizontal_blinker(w, h, cells, cx, cy),
    ensures
        forall|x: int, y: int|
            next_cell(w, h, cells, x, y) == (if x == cx && cy - 1 <= y <= cy + 1 {
                ALIVE
            } else {
                DEAD
            }),
{
}

/// One generation turns a vertical blinker whose centre keeps one cell
/// of margin to every edge back into the horizontal blinker with the
/// same centre.
pub proof fn lemma_blinker_turns_horizontal(w: int, h: int, cells: Seq<u8>, cx: int, cy: int)
    requires
        1 <= cx,
        cx + 1 < w,
        1 <= cy,
        cy + 1 < h,
        vertical_blinker(w, h, cells, cx, cy),
    ensures
        forall|x: int, y: int|
            next_cell(w, h, cells, x, y) == (if y == cy && cx - 1 <= x <= cx + 1 {
                ALIVE
            } else {
                DEAD
            }),
{
}

/// The blinker oscillates with period two: on a grid of at least 5-by-5
/// with the centre at least two cells from every edge, one generation
/// turns the horizontal line into the vertical one, and a second
/// generation restores the original board exactly.
pub proof fn lemma_blinker_period_two(w: int, h: int, cells: Seq<u8>, cx: int, cy: int)
    requires
        w >= 5,
        h >= 5,
        cells.len() == area(w, h),
        2 <= cx,
        cx <= w - 3,
        2 <= cy,
        cy <= h - 3,
        horizontal_blinker(w, h, cells, cx, cy),
    ensures
        vertical_blinker(w, h, step(w, h, cells), cx, cy),
        step(w, h, step(w, h, cells)) == cells,
{
    lemma_blinker_turns_vertical(w, h, cells, cx, cy);
    let mid = step(w, h, cells);
    assert forall|u: int, v: int|
        cell_value(w, h, mid, u, v) == (if u == cx && cy - 1 <= v <= cy + 1 {
            ALIVE
        } else {
            DEAD
        }) by {
        if in_bounds(w, h, u, v) {
            lemma_flat_index(w, h, u, v);
        }
    }
    lemma_blinker_turns_horizontal(w, h, mid, cx, cy);
    assert forall|k: int| 0 <= k < cells.len() implies step(w, h, mid)[k] == cells[k] by {
        lemma_index_decompose(w, h, k);
    }
    assert(step(w, h, mid) =~= cells);
}

} // verus!
