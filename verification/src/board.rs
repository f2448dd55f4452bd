//! The Game of Life board: cells, row-major indexing, neighbor counting at
//! hard edges, and the generation-transition rule.

use vstd::arithmetic::div_mod::lemma_fundamental_div_mod;
use vstd::arithmetic::div_mod::lemma_fundamental_div_mod_converse;
use vstd::prelude::*;

verus! {

/// The state of one grid position: Alive or Dead, nothing more.
#[derive(Clone, Copy, PartialEq, Eq, Structural, Debug)]
pub enum Cell {
    Dead,
    Alive,
}

/// The ways a caller can violate the board's coordinate contracts.
#[derive(Clone, Copy, PartialEq, Eq, Structural, Debug)]
pub enum BoardError {
    /// A coordinate pair (x, y) lies outside the grid: x >= width or
    /// y >= height.
    OutOfRange,
    /// A linear cell index lies outside [0, width * height).
    IndexOutOfRange,
}

/// The mathematical model of a board: the generation counter, the
/// dimensions, and the cells as one row-major sequence.
#[verifier::ext_equal]
pub ghost struct BoardModel {
    pub generation: int,
    pub width: int,
    pub height: int,
    pub cells: Seq<Cell>,
}

/// 1 if the condition holds, 0 otherwise; used to sum live neighbors.
pub open spec fn indicator(b: bool) -> int {
    if b {
        1
    } else {
        0
    }
}

/// The standard Game of Life rule: the state a cell with `n` live
/// neighbors takes in the next generation.
pub open spec fn next_cell(c: Cell, n: int) -> Cell {
    match c {
        Cell::Alive => if 2 <= n && n <= 3 {
            Cell::Alive
        } else {
            Cell::Dead
        },
        Cell::Dead => if n == 3 {
            Cell::Alive
        } else {
            Cell::Dead
        },
    }
}

impl BoardModel {
    /// Well-formedness: positive dimensions and exactly width * height cells.
    pub open spec fn wf(self) -> bool {
        &&& 1 <= self.width
        &&& 1 <= self.height
        &&& self.cells.len() == self.width * self.height
    }

    /// Whether (x, y) lies on the grid.
    pub open spec fn in_bounds(self, x: int, y: int) -> bool {
        0 <= x < self.width && 0 <= y < self.height
    }

    /// The row-major linear position of (x, y).
    pub open spec fn index_of(self, x: int, y: int) -> int {
        y * self.width + x
    }

    /// The cell at grid coordinate (x, y).
    pub open spec fn cell_at(self, x: int, y: int) -> Cell {
        self.cells[self.index_of(x, y)]
    }

    /// Whether (x, y) lies on the grid and holds a live cell. Positions off
    /// the grid edge are never alive: the grid has hard edges, no wrap-around.
    pub open spec fn alive_at(self, x: int, y: int) -> bool {
        self.in_bounds(x, y) && self.cell_at(x, y) is Alive
    }

    /// The number of live cells among the up-to-8 positions surrounding
    /// (x, y); positions off the grid edge are skipped.
    pub open spec fn neighbor_count(self, x: int, y: int) -> int {
        indicator(self.alive_at(x - 1, y - 1)) + indicator(self.alive_at(x, y - 1))
            + indicator(self.alive_at(x + 1, y - 1)) + indicator(self.alive_at(x - 1, y))
            + indicator(self.alive_at(x + 1, y)) + indicator(self.alive_at(x - 1, y + 1))
            + indicator(self.alive_at(x, y + 1)) + indicator(self.alive_at(x + 1, y + 1))
    }

    /// The board after one generation step: the counter advances by one and
    /// every cell is replaced according to `next_cell`, all neighbor counts
    /// taken from the prior generation.
    pub open spec fn step(self) -> BoardModel {
        BoardModel {
            generation: self.generation + 1,
            width: self.width,
            height: self.height,
            cells: Seq::new(
                (self.width * self.height) as nat,
                |i: int| next_cell(self.cells[i], self.neighbor_count(i % self.width, i / self.width)),
            ),
        }
    }
}

/// Coordinate round-trip: decoding the row-major index of an in-bounds
/// (x, y) by modulo and division recovers exactly x and y, and the index
/// itself lies inside [0, w * h).
pub proof fn lemma_row_major_round_trip(w: int, h: int, x: int, y: int)
    requires
        1 <= w,
        1 <= h,
        0 <= x < w,
        0 <= y < h,
    ensures
        0 <= y * w + x < w * h,
        (y * w + x) % w == x,
        (y * w + x) / w == y,
{
    assert(0 <= y * w + x < w * h) by (nonlinear_arith)
        requires
            1 <= w,
            1 <= h,
            0 <= x < w,
            0 <= y < h,
    ;
    lemma_fundamental_div_mod_converse(y * w + x, w, y, x);
}

/// Splitting a linear index: any i in [0, w * h) decomposes as
/// i == (i / w) * w + (i % w) with in-bounds coordinates (i % w, i / w).
pub proof fn lemma_index_split(i: int, w: int, h: int)
    requires
        1 <= w,
        1 <= h,
        0 <= i < w * h,
    ensures
        0 <= i % w < w,
        0 <= i / w < h,
        i == (i / w) * w + (i % w),
{
    lemma_fundamental_div_mod(i, w);
    assert(0 <= i % w < w && 0 <= i / w < h) by (nonlinear_arith)
        requires
            1 <= w,
            1 <= h,
            0 <= i < w * h,
            i == w * (i / w) + (i % w),
    ;
}

/// The board itself: dimensions fixed at construction, a generation counter
/// starting at 1, and the cells in row-major order.
pub struct Board {
    pub generation: u32,
    pub width: u32,
    pub height: u32,
    pub cells: Vec<Cell>,
}

impl View for Board {
    type V = BoardModel;

    open spec fn view(&self) -> BoardModel {
        BoardModel {
            generation: self.generation as int,
            width: self.width as int,
            height: self.height as int,
            cells: self.cells@,
        }
    }
}

impl Board {
    /// Well-formedness of the executable board: the model is well-formed and
    /// the cell count fits the fixed-width counter arithmetic.
    pub open spec fn wf(self) -> bool {
        &&& self@.wf()
        &&& self.width * self.height <= u32::MAX
    }

    /// Creates a board of the given positive dimensions with every cell Dead
    /// and the generation counter at 1. Zero dimensions would make a
    /// degenerate, empty grid and are ruled out by the contract, as is a
    /// cell count beyond what the counter arithmetic can address.
    pub fn new(w: u32, h: u32) -> (b: Board)
        requires
            1 <= w,
            1 <= h,
            w * h <= u32::MAX,
        ensures
            b.wf(),
            b.width == w,
            b.height == h,
            b.generation == 1,
            b@.cells.len() == w * h,
            forall|i: int| 0 <= i < b@.cells.len() ==> b@.cells[i] == Cell::Dead,
    {
        let n: usize = (w as usize) * (h as usize);
        let mut cells: Vec<Cell> = Vec::new();
        while cells.len() < n
            invariant
                n == w * h,
                cells@.len() <= n,
                forall|i: int| 0 <= i < cells@.len() ==> cells@[i] == Cell::Dead,
            decreases n - cells@.len(),
        {
            cells.push(Cell::Dead);
        }
        Board { generation: 1, width: w, height: h, cells }
    }

    /// The row-major linear index of (x, y), or `OutOfRange` when x or y
    /// (either one alone suffices) falls outside the grid.
    pub fn get_index(&self, x: u32, y: u32) -> (r: Result<usize, BoardError>)
        requires
            self.wf(),
        ensures
            x < self.width && y < self.height ==> (r matches Ok(i) && i
                == self@.index_of(x as int, y as int)),
            x >= self.width || y >= self.height ==> r == Err::<usize, BoardError>(
                BoardError::OutOfRange,
            ),
    {
        if x >= self.width || y >= self.height {
            return Err(BoardError::OutOfRange);
        }
        proof {
            lemma_row_major_round_trip(self.width as int, self.height as int, x as int, y as int);
        }
        Ok((y as usize) * (self.width as usize) + (x as usize))
    }

    /// The cell at a linear index, or `IndexOutOfRange` when the index does
    /// not lie inside [0, width * height).
    pub fn get_cell(&self, n: usize) -> (r: Result<Cell, BoardError>)
        requires
            self.wf(),
        ensures
            n < self@.cells.len() ==> r == Ok::<Cell, BoardError>(self@.cells[n as int]),
            n >= self@.cells.len() ==> r == Err::<Cell, BoardError>(BoardError::IndexOutOfRange),
    {
        if n < self.cells.len() {
            Ok(self.cells[n])
        } else {
            Err(BoardError::IndexOutOfRange)
        }
    }

    /// Overwrites the cell at (x, y), or fails with `OutOfRange` — leaving
    /// the board untouched — when x or y falls outside the grid.
    pub fn set_cell(&mut self, x: u32, y: u32, new_val: Cell) -> (r: Result<(), BoardError>)
        requires
            old(self).wf(),
        ensures
            final(self).wf(),
            final(self).generation == old(self).generation,
            final(self).width == old(self).width,
            final(self).height == old(self).height,
            x < old(self).width && y < old(self).height ==> (r == Ok::<(), BoardError>(())
                && final(self)@.cells == old(self)@.cells.update(
                old(self)@.index_of(x as int, y as int),
                new_val,
            )),
            x >= old(self).width || y >= old(self).height ==> (r == Err::<(), BoardError>(
                BoardError::OutOfRange,
            ) && *final(self) == *old(self)),
    {
        let index = match self.get_index(x, y) {
            Ok(i) => i,
            Err(e) => {
                return Err(e);
            },
        };
        proof {
            lemma_row_major_round_trip(self.width as int, self.height as int, x as int, y as int);
        }
        self.cells.set(index, new_val);
        Ok(())
    }

    /// Whether the in-bounds position (x, y) holds a live cell.
    fn alive(&self, x: u32, y: u32) -> (r: bool)
        requires
            self.wf(),
            x < self.width,
            y < self.height,
        ensures
            r == self@.alive_at(x as int, y as int),
    {
        proof {
            lemma_row_major_round_trip(self.width as int, self.height as int, x as int, y as int);
        }
        let index = (y as usize) * (self.width as usize) + (x as usize);
        match self.cells[index] {
            Cell::Alive => true,
            Cell::Dead => false,
        }
    }

    /// Counts the live cells among the up-to-8 positions surrounding (x, y),
    /// skipping positions off the grid edge, or fails with `OutOfRange` when
    /// x or y (either one alone suffices) falls outside the grid.
    pub fn number_of_neighbors(&self, x: u32, y: u32) -> (r: Result<u32, BoardError>)
        requires
            self.wf(),
        ensures
            x < self.width && y < self.height ==> (r matches Ok(n) && n == self@.neighbor_count(
                x as int,
                y as int,
            ) && n <= 8),
            x >= self.width || y >= self.height ==> r == Err::<u32, BoardError>(
                BoardError::OutOfRange,
            ),
    {
        if x >= self.width || y >= self.height {
            return Err(BoardError::OutOfRange);
        }
        let mut count: u32 = 0;
        if y > 0 {
            if x > 0 && self.alive(x - 1, y - 1) {
                count = count + 1;
            }
            if self.alive(x, y - 1) {
                count = count + 1;
            }
            if x < self.width - 1 && self.alive(x + 1, y - 1) {
                count = count + 1;
            }
        }
        if x > 0 && self.alive(x - 1, y) {
            count = count + 1;
        }
        if x < self.width - 1 && self.alive(x + 1, y) {
            count = count + 1;
        }
        if y < self.height - 1 {
            if x > 0 && self.alive(x - 1, y + 1) {
                count = count + 1;
            }
            if self.alive(x, y + 1) {
                count = count + 1;
            }
            if x < self.width - 1 && self.alive(x + 1, y + 1) {
                count = count + 1;
            }
        }
        Ok(count)
    }

    /// Advances the board by one generation: the counter grows by exactly 1
    /// and the whole cell sequence is replaced at once by the one `step`
    /// describes, every neighbor count taken from the prior generation.
    pub fn elapse(&mut self)
        requires
            old(self).wf(),
            old(self).generation < u32::MAX,
        ensures
            final(self).wf(),
            final(self)@ =~= old(self)@.step(),
            final(self).width == old(self).width,
            final(self).height == old(self).height,
            final(self).generation == old(self).generation + 1,
            forall|x: int, y: int|
                old(self)@.in_bounds(x, y) ==> final(self)@.cell_at(x, y) == next_cell(
                    old(self)@.cell_at(x, y),
                    old(self)@.neighbor_count(x, y),
                ),
    {
        let ghost prev = self@;
        let w = self.width;
        let h = self.height;
        let mut next_generation: Vec<Cell> = Vec::new();
        let mut y: u32 = 0;
        while y < h
            invariant
                self.wf(),
                self@ == prev,
                w == self.width,
                h == self.height,
                y <= h,
                next_generation@.len() == y * w,
                forall|i: int|
                    0 <= i < next_generation@.len() ==> next_generation@[i] == next_cell(
                        prev.cells[i],
                        prev.neighbor_count(i % w as int, i / w as int),
                    ),
            decreases h - y,
        {
            let mut x: u32 = 0;
            while x < w
                invariant
                    self.wf(),
                    self@ == prev,
                    w == self.width,
                    h == self.height,
                    y < h,
                    x <= w,
                    next_generation@.len() == y * w + x,
                    forall|i: int|
                        0 <= i < next_generation@.len() ==> next_generation@[i] == next_cell(
                            prev.cells[i],
                            prev.neighbor_count(i % w as int, i / w as int),
                        ),
                decreases w - x,
            {
                proof {
                    lemma_row_major_round_trip(w as int, h as int, x as int, y as int);
                }
                let cell = match self.get_cell(next_generation.len()) {
                    Ok(c) => c,
                    Err(_) => {
                        proof {
                            assert(false);
                        }
                        Cell::Dead
                    },
                };
                let neighbors = match self.number_of_neighbors(x, y) {
                    Ok(n) => n,
                    Err(_) => {
                        proof {
                            assert(false);
                        }
                        0
                    },
                };
                let new_cell = match cell {
                    Cell::Alive => if neighbors == 2 || neighbors == 3 {
                        Cell::Alive
                    } else {
                        Cell::Dead
                    },
                    Cell::Dead => if neighbors == 3 {
                        Cell::Alive
                    } else {
                        Cell::Dead
                    },
                };
                next_generation.push(new_cell);
                x = x + 1;
            }
            proof {
                assert((y + 1) * w == y * w + w) by (nonlinear_arith);
            }
            y = y + 1;
        }
        self.generation = self.generation + 1;
        self.cells = next_generation;
        proof {
            assert(h as int * w as int == w as int * h as int) by (nonlinear_arith);
            assert(self@.cells.len() == prev.step().cells.len());
            assert forall|i: int| 0 <= i < self@.cells.len() implies self@.cells[i]
                == prev.step().cells[i] by {
                assert(prev.step().cells[i] == next_cell(
                    prev.cells[i],
                    prev.neighbor_count(i % prev.width, i / prev.width),
                ));
            }
            assert(self@.cells =~= prev.step().cells);
            assert forall|xx: int, yy: int| prev.in_bounds(xx, yy) implies self@.cell_at(xx, yy)
                == next_cell(prev.cell_at(xx, yy), prev.neighbor_count(xx, yy)) by {
                lemma_row_major_round_trip(prev.width, prev.height, xx, yy);
            }
        }
    }

    /// Read-only snapshot for a renderer: the generation counter, the
    /// dimensions, and the cells in row-major order. The board itself cannot
    /// be mutated through it.
    pub fn render_view(&self) -> (r: (u32, u32, u32, &Vec<Cell>))
        ensures
            r.0 == self.generation,
            r.1 == self.width,
            r.2 == self.height,
            r.3@ == self@.cells,
    {
        (self.generation, self.width, self.height, &self.cells)
    }
}

} // verus!
