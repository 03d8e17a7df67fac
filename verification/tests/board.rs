use game_of_life::board::Board;
use game_of_life::model::{ALIVE, DEAD};

/// A board of the given size with exactly the listed cells alive.
fn board_with(width: i32, height: i32, live: &[(i32, i32)]) -> Board {
    let mut board = Board::create(width, height);
    for &(x, y) in live {
        board.set_cell(x, y, ALIVE);
    }
    board
}

/// The grid as a vector of rows for easy comparison.
fn grid_of(board: &Board) -> Vec<Vec<u8>> {
    let mut rows = Vec::new();
    for y in 0..board.height {
        let mut row = Vec::new();
        for x in 0..board.width {
            row.push(board.get_cell(x, y));
        }
        rows.push(row);
    }
    rows
}

#[test]
fn dimensions_hold_after_create_and_tick() {
    let board = Board::create(4, 3);
    assert_eq!(board.width, 4);
    assert_eq!(board.height, 3);
    assert_eq!(board.cells.len(), 12);
    let next = board.tick();
    assert_eq!(next.width, 4);
    assert_eq!(next.height, 3);
    assert_eq!(next.cells.len(), 12);
}

#[test]
fn degenerate_dimensions_follow_the_area_rule() {
    assert_eq!(Board::create(0, 5).cells.len(), 0);
    assert_eq!(Board::create(5, 0).cells.len(), 0);
    assert_eq!(Board::create(-2, 3).cells.len(), 0);
    // both dimensions negative: the product is positive, so cells exist,
    // but none of them is on the grid
    let odd = Board::create(-2, -3);
    assert_eq!(odd.cells.len(), 6);
    assert_eq!(odd.get_cell(0, 0), DEAD);
    let next = odd.tick();
    assert_eq!(next.cells.len(), 6);
    assert_eq!(next.width, -2);
    assert_eq!(next.height, -3);
}

#[test]
fn create_leaves_every_cell_dead() {
    let board = Board::create(7, 7);
    for cell in &board.cells {
        assert_eq!(*cell, DEAD);
    }
}

#[test]
fn out_of_bounds_reads_are_dead() {
    let live: Vec<(i32, i32)> = (0..3).flat_map(|x| (0..3).map(move |y| (x, y))).collect();
    let board = board_with(3, 3, &live);
    assert_eq!(board.get_cell(-1, 0), DEAD);
    assert_eq!(board.get_cell(0, -1), DEAD);
    assert_eq!(board.get_cell(3, 0), DEAD);
    assert_eq!(board.get_cell(0, 3), DEAD);
    assert_eq!(board.get_cell(-1, -1), DEAD);
    assert_eq!(board.get_cell(100, 100), DEAD);
}

#[test]
fn set_and_get_round_trip() {
    let mut board = Board::create(4, 4);
    board.set_cell(2, 3, ALIVE);
    assert_eq!(board.get_cell(2, 3), ALIVE);
    assert_eq!(board.get_cell(3, 2), DEAD);
    board.set_cell(2, 3, DEAD);
    assert_eq!(board.get_cell(2, 3), DEAD);
}

#[test]
fn live_cell_with_two_neighbors_survives() {
    let board = board_with(3, 3, &[(1, 1), (0, 0), (2, 2)]);
    assert_eq!(board.tick().get_cell(1, 1), ALIVE);
}

#[test]
fn live_cell_with_three_neighbors_survives() {
    let board = board_with(3, 3, &[(1, 1), (0, 0), (0, 1), (0, 2)]);
    assert_eq!(board.tick().get_cell(1, 1), ALIVE);
}

#[test]
fn live_cell_with_one_neighbor_dies() {
    let board = board_with(3, 3, &[(1, 1), (0, 0)]);
    assert_eq!(board.tick().get_cell(1, 1), DEAD);
}

#[test]
fn live_cell_with_four_neighbors_dies() {
    let board = board_with(3, 3, &[(1, 1), (0, 0), (0, 1), (0, 2), (2, 0)]);
    assert_eq!(board.tick().get_cell(1, 1), DEAD);
}

#[test]
fn dead_cell_with_three_neighbors_is_born() {
    let board = board_with(3, 3, &[(0, 0), (0, 1), (0, 2)]);
    assert_eq!(board.get_cell(1, 1), DEAD);
    assert_eq!(board.tick().get_cell(1, 1), ALIVE);
}

#[test]
fn dead_cell_with_two_neighbors_stays_dead() {
    let board = board_with(3, 3, &[(0, 0), (2, 2)]);
    assert_eq!(board.tick().get_cell(1, 1), DEAD);
}

#[test]
fn block_is_a_still_life() {
    let board = board_with(4, 4, &[(1, 1), (2, 1), (1, 2), (2, 2)]);
    let next = board.tick();
    assert_eq!(grid_of(&next), grid_of(&board));
}

#[test]
fn blinker_oscillates_with_period_two() {
    let horizontal = board_with(5, 5, &[(1, 2), (2, 2), (3, 2)]);
    let vertical = horizontal.tick();
    assert_eq!(
        grid_of(&vertical),
        grid_of(&board_with(5, 5, &[(2, 1), (2, 2), (2, 3)]))
    );
    let back = vertical.tick();
    assert_eq!(grid_of(&back), grid_of(&horizontal));
}

#[test]
fn lone_corner_cell_dies() {
    let smallest = board_with(2, 2, &[(0, 0)]);
    for row in grid_of(&smallest.tick()) {
        for cell in row {
            assert_eq!(cell, DEAD);
        }
    }
    let wider = board_with(6, 4, &[(0, 0)]);
    for row in grid_of(&wider.tick()) {
        for cell in row {
            assert_eq!(cell, DEAD);
        }
    }
}

#[test]
fn empty_board_stays_empty() {
    let mut board = Board::create(6, 5);
    for _ in 0..4 {
        board = board.tick();
        assert_eq!(board.cells.len(), 30);
        for cell in &board.cells {
            assert_eq!(*cell, DEAD);
        }
    }
}

#[test]
fn tick_does_not_alter_its_input() {
    let board = board_with(5, 5, &[(1, 2), (2, 2), (3, 2), (0, 0)]);
    let snapshot = board.cells.clone();
    let width = board.width;
    let height = board.height;
    let _next = board.tick();
    assert_eq!(board.cells, snapshot);
    assert_eq!(board.width, width);
    assert_eq!(board.height, height);
}

#[test]
fn randomize_writes_only_cell_states() {
    let mut board = Board::create(10, 7);
    board.randomize();
    assert_eq!(board.width, 10);
    assert_eq!(board.height, 7);
    assert_eq!(board.cells.len(), 70);
    for cell in &board.cells {
        assert!(*cell == DEAD || *cell == ALIVE);
    }
}

#[test]
fn render_draws_rows_with_glyphs() {
    let board = board_with(3, 2, &[(1, 0), (2, 1)]);
    assert_eq!(board.render(), ".#.\n..#\n");
}

#[test]
fn render_of_degenerate_boards() {
    assert_eq!(Board::create(0, 2).render(), "\n\n");
    assert_eq!(Board::create(3, 0).render(), "");
    assert_eq!(Board::create(-2, -3).render(), "");
}
