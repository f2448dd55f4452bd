use game_of_life::board::Board;
use game_of_life::board::BoardError;
use game_of_life::board::Cell;

#[test]
fn new_board_is_dead_at_generation_one() {
    let b = Board::new(4, 3);
    assert_eq!(b.generation, 1);
    assert_eq!(b.width, 4);
    assert_eq!(b.height, 3);
    assert_eq!(b.cells.len(), 12);
    for i in 0..12 {
        assert_eq!(b.get_cell(i).unwrap(), Cell::Dead);
    }
}

#[test]
fn index_round_trip_recovers_coordinates() {
    let b = Board::new(5, 4);
    for y in 0..4u32 {
        for x in 0..5u32 {
            let idx = b.get_index(x, y).unwrap();
            assert_eq!(idx as u32 % 5, x);
            assert_eq!(idx as u32 / 5, y);
        }
    }
}

#[test]
fn index_is_row_major() {
    let b = Board::new(5, 4);
    assert_eq!(b.get_index(0, 0).unwrap(), 0);
    assert_eq!(b.get_index(2, 3).unwrap(), 17);
    assert_eq!(b.get_index(4, 3).unwrap(), 19);
}

#[test]
fn corner_cell_counts_three_neighbors() {
    let mut b = Board::new(3, 3);
    for y in 0..3u32 {
        for x in 0..3u32 {
            b.set_cell(x, y, Cell::Alive).unwrap();
        }
    }
    assert_eq!(b.number_of_neighbors(0, 0).unwrap(), 3);
}

#[test]
fn interior_cell_counts_eight_neighbors() {
    let mut b = Board::new(3, 3);
    for y in 0..3u32 {
        for x in 0..3u32 {
            b.set_cell(x, y, Cell::Alive).unwrap();
        }
    }
    assert_eq!(b.number_of_neighbors(1, 1).unwrap(), 8);
}

#[test]
fn block_is_a_still_life() {
    let mut b = Board::new(4, 4);
    b.set_cell(1, 1, Cell::Alive).unwrap();
    b.set_cell(2, 1, Cell::Alive).unwrap();
    b.set_cell(1, 2, Cell::Alive).unwrap();
    b.set_cell(2, 2, Cell::Alive).unwrap();
    let before = b.cells.clone();
    for _ in 0..5 {
        b.elapse();
        assert_eq!(b.cells, before);
    }
}

#[test]
fn blinker_oscillates_with_period_two() {
    let mut b = Board::new(5, 5);
    b.set_cell(1, 2, Cell::Alive).unwrap();
    b.set_cell(2, 2, Cell::Alive).unwrap();
    b.set_cell(3, 2, Cell::Alive).unwrap();
    let horizontal = b.cells.clone();
    b.elapse();
    for y in 0..5u32 {
        for x in 0..5u32 {
            let expected = if x == 2 && 1 <= y && y <= 3 { Cell::Alive } else { Cell::Dead };
            let idx = b.get_index(x, y).unwrap();
            assert_eq!(b.get_cell(idx).unwrap(), expected);
        }
    }
    b.elapse();
    assert_eq!(b.cells, horizontal);
}

#[test]
fn generation_counts_every_advance() {
    let mut b = Board::new(3, 3);
    assert_eq!(b.generation, 1);
    for k in 1..=5u32 {
        b.elapse();
        assert_eq!(b.generation, 1 + k);
    }
}

#[test]
fn out_of_range_rejected_when_only_x_is_out() {
    let mut b = Board::new(4, 4);
    assert_eq!(b.get_index(4, 0), Err(BoardError::OutOfRange));
    assert_eq!(b.number_of_neighbors(4, 0), Err(BoardError::OutOfRange));
    assert_eq!(b.set_cell(4, 0, Cell::Alive), Err(BoardError::OutOfRange));
}

#[test]
fn out_of_range_rejected_when_only_y_is_out() {
    let mut b = Board::new(4, 4);
    assert_eq!(b.get_index(0, 4), Err(BoardError::OutOfRange));
    assert_eq!(b.number_of_neighbors(0, 4), Err(BoardError::OutOfRange));
    assert_eq!(b.set_cell(0, 4, Cell::Alive), Err(BoardError::OutOfRange));
}

#[test]
fn out_of_range_rejected_when_both_are_out() {
    let mut b = Board::new(4, 4);
    assert_eq!(b.get_index(9, 9), Err(BoardError::OutOfRange));
    assert_eq!(b.number_of_neighbors(9, 9), Err(BoardError::OutOfRange));
    assert_eq!(b.set_cell(9, 9, Cell::Alive), Err(BoardError::OutOfRange));
}

#[test]
fn index_out_of_range_rejected() {
    let b = Board::new(4, 4);
    assert_eq!(b.get_cell(16), Err(BoardError::IndexOutOfRange));
    assert_eq!(b.get_cell(usize::MAX), Err(BoardError::IndexOutOfRange));
}

#[test]
fn failed_set_cell_leaves_board_unchanged() {
    let mut b = Board::new(3, 3);
    b.set_cell(1, 1, Cell::Alive).unwrap();
    let before = b.cells.clone();
    assert_eq!(b.set_cell(3, 1, Cell::Alive), Err(BoardError::OutOfRange));
    assert_eq!(b.cells, before);
    assert_eq!(b.generation, 1);
}

#[test]
fn lone_cell_dies_of_underpopulation() {
    let mut b = Board::new(3, 3);
    b.set_cell(1, 1, Cell::Alive).unwrap();
    b.elapse();
    let idx = b.get_index(1, 1).unwrap();
    assert_eq!(b.get_cell(idx).unwrap(), Cell::Dead);
}

#[test]
fn crowded_cell_dies_of_overpopulation() {
    let mut b = Board::new(3, 3);
    b.set_cell(1, 1, Cell::Alive).unwrap();
    b.set_cell(0, 0, Cell::Alive).unwrap();
    b.set_cell(2, 0, Cell::Alive).unwrap();
    b.set_cell(0, 2, Cell::Alive).unwrap();
    b.set_cell(2, 2, Cell::Alive).unwrap();
    assert_eq!(b.number_of_neighbors(1, 1).unwrap(), 4);
    b.elapse();
    let idx = b.get_index(1, 1).unwrap();
    assert_eq!(b.get_cell(idx).unwrap(), Cell::Dead);
}

#[test]
fn dead_cell_with_three_neighbors_is_born() {
    let mut b = Board::new(3, 3);
    b.set_cell(0, 0, Cell::Alive).unwrap();
    b.set_cell(2, 0, Cell::Alive).unwrap();
    b.set_cell(1, 2, Cell::Alive).unwrap();
    assert_eq!(b.number_of_neighbors(1, 1).unwrap(), 3);
    b.elapse();
    let idx = b.get_index(1, 1).unwrap();
    assert_eq!(b.get_cell(idx).unwrap(), Cell::Alive);
}

#[test]
fn cell_with_two_neighbors_survives() {
    let mut b = Board::new(3, 3);
    b.set_cell(0, 1, Cell::Alive).unwrap();
    b.set_cell(1, 1, Cell::Alive).unwrap();
    b.set_cell(2, 1, Cell::Alive).unwrap();
    assert_eq!(b.number_of_neighbors(1, 1).unwrap(), 2);
    b.elapse();
    let idx = b.get_index(1, 1).unwrap();
    assert_eq!(b.get_cell(idx).unwrap(), Cell::Alive);
}

#[test]
fn render_view_exposes_snapshot() {
    let mut b = Board::new(2, 2);
    b.set_cell(1, 0, Cell::Alive).unwrap();
    let (generation, width, height, cells) = b.render_view();
    assert_eq!(generation, 1);
    assert_eq!(width, 2);
    assert_eq!(height, 2);
    assert_eq!(cells, &vec![Cell::Dead, Cell::Alive, Cell::Dead, Cell::Dead]);
}

#[test]
fn single_cell_board_has_no_neighbors() {
    let mut b = Board::new(1, 1);
    b.set_cell(0, 0, Cell::Alive).unwrap();
    assert_eq!(b.number_of_neighbors(0, 0).unwrap(), 0);
    b.elapse();
    assert_eq!(b.get_cell(0).unwrap(), Cell::Dead);
    assert_eq!(b.generation, 2);
}
