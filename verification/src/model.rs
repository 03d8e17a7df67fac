//! Mathematical model of the grid: a board is described by its two
//! dimensions and the row-major sequence of cell states. All contracts of
//! the executable code are stated over these functions.

use vstd::prelude::*;
use vstd::arithmetic::div_mod::{
    lemma_fundamental_div_mod,
    lemma_fundamental_div_mod_converse,
    lemma_mod_pos_bound,
};
use vstd::arithmetic::mul::lemma_mul_inequality;

verus! {

/// State of a dead cell, and the value reads outside the grid return.
pub const DEAD: u8 = 0;

/// State of a live cell.
pub const ALIVE: u8 = 1;

/// Number of cells a board with the given dimensions stores: the product
/// `w * h` when it is positive, otherwise zero (degenerate board).
pub open spec fn area(w: int, h: int) -> int {
    if w * h > 0 {
        w * h
    } else {
        0
    }
}

/// Whether `(x, y)` lies on the grid.
pub open spec fn in_bounds(w: int, h: int, x: int, y: int) -> bool {
    0 <= x < w && 0 <= y < h
}

/// The cell stored at `(x, y)`, with the dead-border boundary condition:
/// any coordinate outside the grid reads as DEAD.
pub open spec fn cell_value(w: int, h: int, cells: Seq<u8>, x: int, y: int) -> u8 {
    if in_bounds(w, h, x, y) {
        cells[x + y * w]
    } else {
        DEAD
    }
}

/// Sum of the states of the eight neighbours of `(x, y)` (the Moore
/// neighbourhood without the cell itself); off-grid neighbours contribute 0.
pub open spec fn live_neighbors(w: int, h: int, cells: Seq<u8>, x: int, y: int) -> int {
    cell_value(w, h, cells, x - 1, y - 1) + cell_value(w, h, cells, x, y - 1)
        + cell_value(w, h, cells, x + 1, y - 1) + cell_value(w, h, cells, x - 1, y) + cell_value(
        w,
        h,
        cells,
        x + 1,
        y,
    ) + cell_value(w, h, cells, x - 1, y + 1) + cell_value(w, h, cells, x, y + 1) + cell_value(
        w,
        h,
        cells,
        x + 1,
        y + 1,
    )
}

/// The Life rule for one cell, in the order the rule is stated:
/// a live cell with fewer than two live neighbours dies (underpopulation),
/// a live cell with more than three dies (overpopulation), a dead cell
/// with exactly three becomes alive (birth), and every other cell keeps
/// its state.
pub open spec fn next_cell(w: int, h: int, cells: Seq<u8>, x: int, y: int) -> u8 {
    let me = cell_value(w, h, cells, x, y);
    let alive_neighbours = live_neighbors(w, h, cells, x, y);
    if me == ALIVE && alive_neighbours < 2 {
        DEAD
    } else if me == ALIVE && alive_neighbours > 3 {
        DEAD
    } else if me == DEAD && alive_neighbours == 3 {
        ALIVE
    } else {
        me
    }
}

/// One generation: the whole next grid, cell by cell. On a degenerate
/// board (a dimension that is not positive) every stored cell is DEAD.
pub open spec fn step(w: int, h: int, cells: Seq<u8>) -> Seq<u8> {
    Seq::new(
        area(w, h) as nat,
        |k: int|
            if w > 0 && h > 0 {
                next_cell(w, h, cells, k % w, k / w)
            } else {
                DEAD
            },
    )
}

/// `n` generations in a row.
pub open spec fn step_n(w: int, h: int, cells: Seq<u8>, n: nat) -> Seq<u8>
    decreases n,
{
    if n == 0 {
        cells
    } else {
        step(w, h, step_n(w, h, cells, (n - 1) as nat))
    }
}

/// Every stored cell is DEAD.
pub open spec fn all_dead(cells: Seq<u8>) -> bool {
    forall|k: int| 0 <= k < cells.len() ==> cells[k] == DEAD
}

/// The glyph a cell is drawn with: `.` for the canonical DEAD value and
/// `#` for anything else.
pub open spec fn glyph(state: u8) -> char {
    if state == DEAD {
        '.'
    } else {
        '#'
    }
}

/// The characters of one drawn row: one glyph per column, then a newline.
pub open spec fn row_chars(w: int, h: int, cells: Seq<u8>, y: int) -> Seq<char> {
    Seq::new((if w > 0 { w } else { 0 }) as nat, |x: int| glyph(cell_value(w, h, cells, x, y)))
        .push('\n')
}

/// The characters of the first `y` drawn rows, top to bottom.
pub open spec fn rows_chars_upto(w: int, h: int, cells: Seq<u8>, y: int) -> Seq<char>
    decreases y,
{
    if y <= 0 {
        Seq::<char>::empty()
    } else {
        rows_chars_upto(w, h, cells, y - 1) + row_chars(w, h, cells, y - 1)
    }
}

/// The full text of a drawn board: `h` rows of `max(w, 0)` glyphs, each
/// row ended by a newline; empty when `h` is not positive.
pub open spec fn render_chars(w: int, h: int, cells: Seq<u8>) -> Seq<char> {
    rows_chars_upto(w, h, cells, h)
}

/// Row-major indexing: the flat index of an on-grid `(x, y)` lies within
/// the stored cells and decomposes back into `x` and `y`.
pub proof fn lemma_flat_index(w: int, h: int, x: int, y: int)
    requires
        w > 0,
        h > 0,
        in_bounds(w, h, x, y),
    ensures
        0 <= x + y * w < area(w, h),
        (x + y * w) % w == x,
        (x + y * w) / w == y,
{
    lemma_mul_inequality(0, y, w);
    lemma_mul_inequality(y, h - 1, w);
    assert((h - 1) * w == h * w - w) by (nonlinear_arith);
    assert(w * h > 0 && h * w == w * h) by (nonlinear_arith)
        requires
            w > 0,
            h > 0,
    ;
    lemma_fundamental_div_mod_converse(x + y * w, w, y, x);
}

/// The converse of `lemma_flat_index`: every flat index within the stored
/// cells names an on-grid coordinate pair.
pub proof fn lemma_index_decompose(w: int, h: int, k: int)
    requires
        w > 0,
        h > 0,
        0 <= k < area(w, h),
    ensures
        in_bounds(w, h, k % w, k / w),
        (k % w) + (k / w) * w == k,
{
    lemma_fundamental_div_mod(k, w);
    lemma_mod_pos_bound(k, w);
    let q = k / w;
    let r = k % w;
    assert(k < w * h);
    assert(0 <= q && q < h && r + q * w == k) by (nonlinear_arith)
        requires
            w > 0,
            h > 0,
            0 <= k,
            k < w * h,
            k == w * q + r,
            0 <= r < w,
    ;
}

} // verus!
