//! The executable board: a dense, row-major grid of cells together with
//! its two dimensions. Every operation is specified over the functions of
//! [`crate::model`].

use vstd::prelude::*;
use vstd::string::StringExecFns;
use crate::model::{
    area, cell_value, glyph, in_bounds, lemma_flat_index, next_cell, render_chars, row_chars,
    rows_chars_upto, step, ALIVE, DEAD,
};

verus! {

/// A grid of cells at one point in time. `cells` stores the grid row by
/// row: the cell at `(x, y)` sits at index `x + y * width`.
pub struct Board {
    pub width: i32,
    pub height: i32,
    pub cells: Vec<u8>,
}

impl Board {
    /// Well-formedness: the cell count matches the dimensions, and every
    /// stored cell is one of the two cell states.
    pub open spec fn wf(self) -> bool {
        &&& self.cells@.len() == area(self.width as int, self.height as int)
        &&& forall|k: int|
            0 <= k < self.cells@.len() ==> (self.cells@[k] == DEAD || self.cells@[k] == ALIVE)
    }

    /// The cell this board holds at `(x, y)`, DEAD off the grid.
    pub open spec fn spec_cell(self, x: int, y: int) -> u8 {
        cell_value(self.width as int, self.height as int, self.cells@, x, y)
    }

    /// A brand-new board of the given dimensions with every cell DEAD.
    /// The cell count is exactly `width * height` when that product is
    /// positive, and zero otherwise.
    pub fn create(width: i32, height: i32) -> (board: Board)
        requires
            area(width as int, height as int) <= usize::MAX as int,
        ensures
            board.wf(),
            board.width == width,
            board.height == height,
            forall|k: int| 0 <= k < board.cells@.len() ==> board.cells@[k] == DEAD,
    {
        let count: usize = if width > 0 && height > 0 {
            assert(width as int * height as int > 0) by (nonlinear_arith)
                requires
                    width > 0,
                    height > 0,
            ;
            (width as usize) * (height as usize)
        } else if width < 0 && height < 0 {
            let wa: i64 = -(width as i64);
            let ha: i64 = -(height as i64);
            assert(wa as int * ha as int == width as int * height as int && wa as int * ha as int
                > 0) by (nonlinear_arith)
                requires
                    wa == -(width as int),
                    ha == -(height as int),
                    width < 0,
                    height < 0,
            ;
            (wa as usize) * (ha as usize)
        } else {
            assert(width as int * height as int <= 0) by (nonlinear_arith)
                requires
                    !(width > 0 && height > 0),
                    !(width < 0 && height < 0),
            ;
            0
        };
        assert(count == area(width as int, height as int));
        let mut cells: Vec<u8> = Vec::new();
        for i in 0..count
            invariant
                cells@.len() == i,
                forall|k: int| 0 <= k < cells@.len() ==> cells@[k] == DEAD,
        {
            cells.push(DEAD);
        }
        Board { width, height, cells }
    }

    /// The bounded read: the stored state at `(x, y)` on the grid, and
    /// DEAD for any coordinate off the grid, as if the grid were
    /// surrounded by an endless border of dead cells.
    pub fn get_cell(&self, x: i32, y: i32) -> (state: u8)
        requires
            self.wf(),
        ensures
            state == self.spec_cell(x as int, y as int),
            state == DEAD || state == ALIVE,
            !in_bounds(self.width as int, self.height as int, x as int, y as int) ==> state
                == DEAD,
    {
        if x >= 0 && x < self.width && y >= 0 && y < self.height {
            // the cell count is a machine word, so the flat index fits too
            let _n: usize = self.cells.len();
            proof {
                lemma_flat_index(self.width as int, self.height as int, x as int, y as int);
            }
            let idx: usize = (x as usize) + (y as usize) * (self.width as usize);
            self.cells[idx]
        } else {
            DEAD
        }
    }

    /// Writes `state` into the cell at `(x, y)`. The caller must name an
    /// on-grid coordinate pair and one of the two cell states; every
    /// other cell keeps its value.
    pub fn set_cell(&mut self, x: i32, y: i32, state: u8)
        requires
            old(self).wf(),
            in_bounds(old(self).width as int, old(self).height as int, x as int, y as int),
            state == DEAD || state == ALIVE,
        ensures
            final(self).wf(),
            final(self).width == old(self).width,
            final(self).height == old(self).height,
            final(self).cells@ == old(self).cells@.update(
                x as int + y as int * old(self).width as int,
                state,
            ),
            final(self).spec_cell(x as int, y as int) == state,
            forall|u: int, v: int|
                in_bounds(old(self).width as int, old(self).height as int, u, v) && !(u == x as int
                    && v == y as int) ==> final(self).spec_cell(u, v) == old(self).spec_cell(u, v),
    {
        let ghost w = self.width as int;
        let ghost h = self.height as int;
        // the cell count is a machine word, so the flat index fits too
        let _n: usize = self.cells.len();
        proof {
            lemma_flat_index(w, h, x as int, y as int);
        }
        let idx: usize = (x as usize) + (y as usize) * (self.width as usize);
        self.cells[idx] = state;
        proof {
            assert forall|u: int, v: int|
                in_bounds(w, h, u, v) && !(u == x as int && v == y as int) implies self.spec_cell(
                u,
                v,
            ) == old(self).spec_cell(u, v) by {
                lemma_flat_index(w, h, u, v);
                if u + v * w == x as int + y as int * w {
                    assert(false);
                }
            }
        }
    }

    /// One generation: a brand-new board of the same dimensions holding
    /// the successor of every cell of this board, which is only read.
    /// Every neighbour lookup goes through the bounded read, so off-grid
    /// neighbours contribute nothing.
    pub fn tick(&self) -> (next: Board)
        requires
            self.wf(),
        ensures
            next.wf(),
            next.width == self.width,
            next.height == self.height,
            next.cells@ == step(self.width as int, self.height as int, self.cells@),
            forall|x: int, y: int|
                in_bounds(self.width as int, self.height as int, x, y) ==> next.spec_cell(x, y)
                    == next_cell(self.width as int, self.height as int, self.cells@, x, y),
    {
        let ghost w = self.width as int;
        let ghost h = self.height as int;
        // the cell count is a machine word, which is what `create` asks for
        let _n: usize = self.cells.len();
        let mut future = Board::create(self.width, self.height);
        if self.width > 0 && self.height > 0 {
            for y in 0..self.height
                invariant
                    self.wf(),
                    self.width > 0,
                    self.height > 0,
                    w == self.width as int,
                    h == self.height as int,
                    future.wf(),
                    future.width == self.width,
                    future.height == self.height,
                    forall|k: int|
                        0 <= k < y as int * w ==> future.cells@[k] == step(w, h, self.cells@)[k],
            {
                for x in 0..self.width
                    invariant
                        self.wf(),
                        self.width > 0,
                        self.height > 0,
                        0 <= y < self.height,
                        w == self.width as int,
                        h == self.height as int,
                        future.wf(),
                        future.width == self.width,
                        future.height == self.height,
                        forall|k: int|
                            0 <= k < y as int * w + x as int ==> future.cells@[k] == step(
                                w,
                                h,
                                self.cells@,
                            )[k],
                {
                    let alive_neighbours: u8 = self.get_cell(x - 1, y - 1) + self.get_cell(
                        x,
                        y - 1,
                    ) + self.get_cell(x + 1, y - 1) + self.get_cell(x - 1, y) + self.get_cell(
                        x + 1,
                        y,
                    ) + self.get_cell(x - 1, y + 1) + self.get_cell(x, y + 1) + self.get_cell(
                        x + 1,
                        y + 1,
                    );
                    let me: u8 = self.get_cell(x, y);
                    let state: u8 = if me == ALIVE && alive_neighbours < 2 {
                        DEAD
                    } else if me == ALIVE && alive_neighbours > 3 {
                        DEAD
                    } else if me == DEAD && alive_neighbours == 3 {
                        ALIVE
                    } else {
                        me
                    };
                    proof {
                        lemma_flat_index(w, h, x as int, y as int);
                        assert(state == next_cell(w, h, self.cells@, x as int, y as int));
                    }
                    future.set_cell(x, y, state);
                }
                proof {
                    assert((y as int + 1) * w == y as int * w + w) by (nonlinear_arith);
                }
            }
            proof {
                assert(h * w == w * h && w * h > 0) by (nonlinear_arith)
                    requires
                        w > 0,
                        h > 0,
                ;
            }
        }
        proof {
            assert(future.cells@ =~= step(w, h, self.cells@));
            assert forall|x: int, y: int| in_bounds(w, h, x, y) implies future.spec_cell(x, y)
                == next_cell(w, h, self.cells@, x, y) by {
                lemma_flat_index(w, h, x, y);
            }
        }
        future
    }

    /// Overwrites every cell with an independently drawn random bit; the
    /// dimensions and the cell count stay as they were.
    pub fn randomize(&mut self)
        requires
            old(self).wf(),
        ensures
            final(self).wf(),
            final(self).width == old(self).width,
            final(self).height == old(self).height,
    {
        let n: usize = self.cells.len();
        for i in 0..n
            invariant
                self.wf(),
                self.width == old(self).width,
                self.height == old(self).height,
                self.cells@.len() == n,
        {
            let bit: u8 = random_bit();
            self.cells[i] = bit;
        }
    }

    /// The board as text, row by row from the top: one line per row, `.`
    /// for a cell holding the canonical DEAD value and `#` for anything
    /// else, with a newline after every row.
    pub fn render(&self) -> (text: String)
        requires
            self.wf(),
        ensures
            text@ == render_chars(self.width as int, self.height as int, self.cells@),
    {
        let ghost w = self.width as int;
        let ghost h = self.height as int;
        let mut text = String::new();
        if self.height > 0 {
            for y in 0..self.height
                invariant
                    self.wf(),
                    self.height > 0,
                    w == self.width as int,
                    h == self.height as int,
                    text@ == rows_chars_upto(w, h, self.cells@, y as int),
            {
                if self.width > 0 {
                    for x in 0..self.width
                        invariant
                            self.wf(),
                            self.width > 0,
                            self.height > 0,
                            0 <= y < self.height,
                            w == self.width as int,
                            h == self.height as int,
                            text@ == rows_chars_upto(w, h, self.cells@, y as int) + Seq::new(
                                x as nat,
                                |p: int| glyph(cell_value(w, h, self.cells@, p, y as int)),
                            ),
                    {
                        let state: u8 = self.get_cell(x, y);
                        if state == DEAD {
                            text.append(".");
                        } else {
                            text.append("#");
                        }
                        proof {
                            reveal_strlit(".");
                            reveal_strlit("#");
                            assert(text@ =~= rows_chars_upto(w, h, self.cells@, y as int)
                                + Seq::new(
                                (x + 1) as nat,
                                |p: int| glyph(cell_value(w, h, self.cells@, p, y as int)),
                            ));
                        }
                    }
                }
                text.append("\n");
                proof {
                    reveal_strlit("\n");
                    assert(row_chars(w, h, self.cells@, y as int) == Seq::new(
                        (if w > 0 {
                            w
                        } else {
                            0
                        }) as nat,
                        |p: int| glyph(cell_value(w, h, self.cells@, p, y as int)),
                    ).push('\n'));
                    assert(text@ =~= rows_chars_upto(w, h, self.cells@, y as int + 1));
                }
            }
        }
        text
    }
}

/// Relies on `rand::random::<bool>()`: one draw from the thread-local
/// generator's uniform distribution over the two boolean values, cast to
/// the matching cell state. Nothing is assumed about which value comes
/// back, only that a boolean casts to 0 or 1.
#[verifier::external_body]
fn random_bit() -> (bit: u8)
    ensures
        bit == DEAD || bit == ALIVE,
{
    rand::random::<bool>() as u8
}

} // verus!
