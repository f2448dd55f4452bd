//! Global laws of the simulation, proved over the board model: generation
//! counting under repeated steps, the 2x2 block still life, and the blinker
//! oscillator.

use crate::board::BoardModel;
use crate::board::Cell;
use crate::board::lemma_index_split;
use crate::board::next_cell;
use vstd::prelude::*;

verus! {

/// The model after k generation steps.
pub open spec fn step_k(m: BoardModel, k: nat) -> BoardModel
    decreases k,
{
    if k == 0 {
        m
    } else {
        step_k(m, (k - 1) as nat).step()
    }
}

/// Generation monotonicity: k steps advance the generation counter by
/// exactly k, whatever the cells hold.
pub proof fn lemma_generation_monotonic(m: BoardModel, k: nat)
    ensures
        step_k(m, k).generation == m.generation + k,
    decreases k,
{
    if k > 0 {
        lemma_generation_monotonic(m, (k - 1) as nat);
    }
}

/// A step keeps the board well-formed and never changes its dimensions.
pub proof fn lemma_step_preserves_wf(m: BoardModel)
    requires
        m.wf(),
    ensures
        m.step().wf(),
        m.step().width == m.width,
        m.step().height == m.height,
{
    assert(m.width * m.height >= 1) by (nonlinear_arith)
        requires
            m.width >= 1,
            m.height >= 1,
    ;
}

/// Two well-formed boards of the same dimensions that agree on every
/// in-bounds coordinate hold equal cell sequences.
proof fn lemma_cells_from_coordinates(m1: BoardModel, m2: BoardModel)
    requires
        m1.wf(),
        m2.wf(),
        m1.width == m2.width,
        m1.height == m2.height,
        forall|x: int, y: int|
            m1.in_bounds(x, y) ==> #[trigger] m1.cell_at(x, y) == m2.cell_at(x, y),
    ensures
        m1.cells == m2.cells,
{
    assert forall|i: int| 0 <= i < m1.cells.len() implies m1.cells[i] == m2.cells[i] by {
        lemma_index_split(i, m1.width, m1.height);
        let x = i % m1.width;
        let y = i / m1.width;
        assert(m1.cell_at(x, y) == m2.cell_at(x, y));
    }
    assert(m1.cells =~= m2.cells);
}

/// Edge neighbor counting, corner case: the corner cell (0, 0) has only 3
/// on-grid neighbors — the grid has hard edges — so when all of them are
/// alive it reports exactly 3, never 8.
pub proof fn lemma_corner_neighbor_count(m: BoardModel)
    requires
        m.wf(),
        2 <= m.width,
        2 <= m.height,
        m.alive_at(1, 0),
        m.alive_at(0, 1),
        m.alive_at(1, 1),
    ensures
        m.neighbor_count(0, 0) == 3,
{
}

/// Edge neighbor counting, interior case: a cell away from every edge has
/// all 8 of its neighbors on the grid, so when all of them are alive it
/// reports exactly 8.
pub proof fn lemma_interior_neighbor_count(m: BoardModel, x: int, y: int)
    requires
        m.wf(),
        1 <= x < m.width - 1,
        1 <= y < m.height - 1,
        forall|a: int, b: int|
            x - 1 <= a <= x + 1 && y - 1 <= b <= y + 1 && !(a == x && b == y)
                ==> #[trigger] m.alive_at(a, b),
    ensures
        m.neighbor_count(x, y) == 8,
{
}

/// A 2x2 block of live cells with top-left corner (x0, y0), placed with at
/// least one Dead row and column between it and every edge, on an otherwise
/// Dead board.
pub open spec fn is_block(m: BoardModel, x0: int, y0: int) -> bool {
    &&& m.wf()
    &&& 1 <= x0 && x0 + 3 <= m.width
    &&& 1 <= y0 && y0 + 3 <= m.height
    &&& forall|x: int, y: int|
        m.in_bounds(x, y) ==> #[trigger] m.cell_at(x, y) == (if x0 <= x <= x0 + 1 && y0 <= y <= y0
            + 1 {
            Cell::Alive
        } else {
            Cell::Dead
        })
}

/// On a board holding only a 2x2 block, every cell keeps its state across
/// one step: the four block cells each see 3 live neighbors and survive,
/// and no Dead cell sees exactly 3.
proof fn lemma_block_cell(m: BoardModel, x0: int, y0: int, x: int, y: int)
    requires
        is_block(m, x0, y0),
        m.in_bounds(x, y),
    ensures
        next_cell(m.cell_at(x, y), m.neighbor_count(x, y)) == m.cell_at(x, y),
{
    assert forall|a: int, b: int| #[trigger]
        m.alive_at(a, b) == (x0 <= a <= x0 + 1 && y0 <= b <= y0 + 1) by {
        if m.in_bounds(a, b) {
            assert(m.cell_at(a, b) == (if x0 <= a <= x0 + 1 && y0 <= b <= y0 + 1 {
                Cell::Alive
            } else {
                Cell::Dead
            }));
        }
    }
}

/// Still life, one step: a lone 2x2 block is left exactly as it was by a
/// generation step.
pub proof fn lemma_block_step(m: BoardModel, x0: int, y0: int)
    requires
        is_block(m, x0, y0),
    ensures
        is_block(m.step(), x0, y0),
        m.step().cells == m.cells,
{
    let m2 = m.step();
    lemma_step_preserves_wf(m);
    assert forall|x: int, y: int| m2.in_bounds(x, y) implies #[trigger] m2.cell_at(x, y)
        == m.cell_at(x, y) by {
        crate::board::lemma_row_major_round_trip(m.width, m.height, x, y);
        lemma_block_cell(m, x0, y0, x, y);
        assert(m2.cells[y * m.width + x] == next_cell(
            m.cells[y * m.width + x],
            m.neighbor_count((y * m.width + x) % m.width, (y * m.width + x) / m.width),
        ));
    }
    lemma_cells_from_coordinates(m2, m);
}

/// Still life, any number of steps: a lone 2x2 block is unchanged — the
/// four live cells and every Dead cell around them — after k steps.
pub proof fn lemma_block_still_life(m: BoardModel, x0: int, y0: int, k: nat)
    requires
        is_block(m, x0, y0),
    ensures
        is_block(step_k(m, k), x0, y0),
        step_k(m, k).cells == m.cells,
    decreases k,
{
    if k > 0 {
        lemma_block_still_life(m, x0, y0, (k - 1) as nat);
        lemma_block_step(step_k(m, (k - 1) as nat), x0, y0);
    }
}

/// A horizontal blinker centered at (x0, y0): live cells at (x0-1, y0),
/// (x0, y0) and (x0+1, y0), with a margin of at least one Dead row and
/// column in both orientations, on an otherwise Dead board.
pub open spec fn is_horizontal_blinker(m: BoardModel, x0: int, y0: int) -> bool {
    &&& m.wf()
    &&& 2 <= x0 && x0 + 3 <= m.width
    &&& 2 <= y0 && y0 + 3 <= m.height
    &&& forall|x: int, y: int|
        m.in_bounds(x, y) ==> #[trigger] m.cell_at(x, y) == (if y == y0 && x0 - 1 <= x <= x0 + 1 {
            Cell::Alive
        } else {
            Cell::Dead
        })
}

/// A vertical blinker centered at (x0, y0): live cells at (x0, y0-1),
/// (x0, y0) and (x0, y0+1), with the same margin, on an otherwise Dead
/// board.
pub open spec fn is_vertical_blinker(m: BoardModel, x0: int, y0: int) -> bool {
    &&& m.wf()
    &&& 2 <= x0 && x0 + 3 <= m.width
    &&& 2 <= y0 && y0 + 3 <= m.height
    &&& forall|x: int, y: int|
        m.in_bounds(x, y) ==> #[trigger] m.cell_at(x, y) == (if x == x0 && y0 - 1 <= y <= y0 + 1 {
            Cell::Alive
        } else {
            Cell::Dead
        })
}

/// One step of a horizontal blinker, cell by cell: the center survives with
/// 2 neighbors, the cells above and below it are born with 3, the two wing
/// cells die with 1, and nothing else is born.
proof fn lemma_blinker_h_cell(m: BoardModel, x0: int, y0: int, x: int, y: int)
    requires
        is_horizontal_blinker(m, x0, y0),
        m.in_bounds(x, y),
    ensures
        next_cell(m.cell_at(x, y), m.neighbor_count(x, y)) == (if x == x0 && y0 - 1 <= y <= y0
            + 1 {
            Cell::Alive
        } else {
            Cell::Dead
        }),
{
    assert forall|a: int, b: int| #[trigger]
        m.alive_at(a, b) == (b == y0 && x0 - 1 <= a <= x0 + 1) by {
        if m.in_bounds(a, b) {
            assert(m.cell_at(a, b) == (if b == y0 && x0 - 1 <= a <= x0 + 1 {
                Cell::Alive
            } else {
                Cell::Dead
            }));
        }
    }
}

/// One step of a vertical blinker, cell by cell: the mirror image of the
/// horizontal case.
proof fn lemma_blinker_v_cell(m: BoardModel, x0: int, y0: int, x: int, y: int)
    requires
        is_vertical_blinker(m, x0, y0),
        m.in_bounds(x, y),
    ensures
        next_cell(m.cell_at(x, y), m.neighbor_count(x, y)) == (if y == y0 && x0 - 1 <= x <= x0
            + 1 {
            Cell::Alive
        } else {
            Cell::Dead
        }),
{
    assert forall|a: int, b: int| #[trigger]
        m.alive_at(a, b) == (a == x0 && y0 - 1 <= b <= y0 + 1) by {
        if m.in_bounds(a, b) {
            assert(m.cell_at(a, b) == (if a == x0 && y0 - 1 <= b <= y0 + 1 {
                Cell::Alive
            } else {
                Cell::Dead
            }));
        }
    }
}

/// One step turns a horizontal blinker into the vertical blinker with the
/// same center.
pub proof fn lemma_blinker_step_horizontal(m: BoardModel, x0: int, y0: int)
    requires
        is_horizontal_blinker(m, x0, y0),
    ensures
        is_vertical_blinker(m.step(), x0, y0),
{
    let m2 = m.step();
    lemma_step_preserves_wf(m);
    assert forall|x: int, y: int| m2.in_bounds(x, y) implies #[trigger] m2.cell_at(x, y) == (if x
        == x0 && y0 - 1 <= y <= y0 + 1 {
        Cell::Alive
    } else {
        Cell::Dead
    }) by {
        crate::board::lemma_row_major_round_trip(m.width, m.height, x, y);
        lemma_blinker_h_cell(m, x0, y0, x, y);
        assert(m2.cells[y * m.width + x] == next_cell(
            m.cells[y * m.width + x],
            m.neighbor_count((y * m.width + x) % m.width, (y * m.width + x) / m.width),
        ));
    }
}

/// One step turns a vertical blinker back into the horizontal blinker with
/// the same center.
pub proof fn lemma_blinker_step_vertical(m: BoardModel, x0: int, y0: int)
    requires
        is_vertical_blinker(m, x0, y0),
    ensures
        is_horizontal_blinker(m.step(), x0, y0),
{
    let m2 = m.step();
    lemma_step_preserves_wf(m);
    assert forall|x: int, y: int| m2.in_bounds(x, y) implies #[trigger] m2.cell_at(x, y) == (if y
        == y0 && x0 - 1 <= x <= x0 + 1 {
        Cell::Alive
    } else {
        Cell::Dead
    }) by {
        crate::board::lemma_row_major_round_trip(m.width, m.height, x, y);
        lemma_blinker_v_cell(m, x0, y0, x, y);
        assert(m2.cells[y * m.width + x] == next_cell(
            m.cells[y * m.width + x],
            m.neighbor_count((y * m.width + x) % m.width, (y * m.width + x) / m.width),
        ));
    }
}

/// The blinker oscillates with period 2: one step turns the horizontal
/// blinker vertical, and a second step restores the original cells exactly.
pub proof fn lemma_blinker_oscillates(m: BoardModel, x0: int, y0: int)
    requires
        is_horizontal_blinker(m, x0, y0),
    ensures
        is_vertical_blinker(m.step(), x0, y0),
        is_horizontal_blinker(m.step().step(), x0, y0),
        m.step().step().cells == m.cells,
{
    lemma_blinker_step_horizontal(m, x0, y0);
    lemma_blinker_step_vertical(m.step(), x0, y0);
    let m2 = m.step().step();
    assert forall|x: int, y: int| m2.in_bounds(x, y) implies #[trigger] m2.cell_at(x, y)
        == m.cell_at(x, y) by {
        assert(m.cell_at(x, y) == (if y == y0 && x0 - 1 <= x <= x0 + 1 {
            Cell::Alive
        } else {
            Cell::Dead
        }));
    }
    lemma_cells_from_coordinates(m2, m);
}

} // verus!
