use game_of_life::board::{step, Board, BOARD_SIZE};
use game_of_life::cell::{saturating_inc, transition, Cell};

/// The coordinates of every live cell, row-major.
fn live_cells(board: &Board) -> Vec<(usize, usize)> {
    let n = board.side();
    let mut live: Vec<(usize, usize)> = Vec::new();
    for r in 0..n {
        for c in 0..n {
            if matches!(board.cell_at(r, c), Cell::Alive(_)) {
                live.push((r, c));
            }
        }
    }
    live
}

#[test]
fn new_board_is_all_dead_at_max_age() {
    let board = Board::new();
    assert_eq!(board.side(), BOARD_SIZE);
    assert_eq!(board.side(), 50);
    for r in 0..board.side() {
        for c in 0..board.side() {
            assert_eq!(board.cell_at(r, c), Cell::Dead(u32::MAX));
        }
    }
}

#[test]
fn corner_birth_through_wraparound() {
    // The corner (0, 0) of a 5x5 torus is adjacent to (4, 4), (4, 0) and
    // (0, 4): three live neighbors reachable only by wrapping, so the
    // corner cell is born.
    let mut board = Board::with_size(5);
    board.toggle(4, 4);
    board.toggle(4, 0);
    board.toggle(0, 4);
    let board = step(board, true);
    assert_eq!(board.cell_at(0, 0), Cell::Alive(0));
}

#[test]
fn edge_cell_sees_all_eight_wrapped_neighbors() {
    // Light up all 8 neighbors of the corner (0, 0); with more than 3 live
    // neighbors the corner must stay dead, which tells the count saw all 8.
    let mut board = Board::with_size(5);
    for (r, c) in [(4, 4), (4, 0), (4, 1), (0, 4), (0, 1), (1, 4), (1, 0), (1, 1)] {
        board.toggle(r, c);
    }
    let board = step(board, true);
    assert!(matches!(board.cell_at(0, 0), Cell::Dead(_)));
}

#[test]
fn pause_leaves_the_board_unchanged() {
    let mut board = Board::with_size(5);
    board.toggle(2, 1);
    board.toggle(2, 2);
    board.toggle(0, 4);
    let before: Vec<Cell> = (0..5)
        .flat_map(|r| (0..5).map(move |c| (r, c)))
        .map(|(r, c)| board.cell_at(r, c))
        .collect();
    let board = step(board, false);
    let after: Vec<Cell> = (0..5)
        .flat_map(|r| (0..5).map(move |c| (r, c)))
        .map(|(r, c)| board.cell_at(r, c))
        .collect();
    assert_eq!(before, after);
}

#[test]
fn dead_cell_with_three_neighbors_is_born() {
    let mut board = Board::with_size(5);
    board.toggle(2, 1);
    board.toggle(2, 2);
    board.toggle(2, 3);
    let board = step(board, true);
    assert_eq!(board.cell_at(1, 2), Cell::Alive(0));
    assert_eq!(board.cell_at(3, 2), Cell::Alive(0));
}

#[test]
fn live_cell_with_two_or_three_neighbors_survives_and_ages() {
    // In a 2x2 block every cell has exactly 3 live neighbors.
    let mut board = Board::with_size(5);
    board.toggle(1, 1);
    board.toggle(1, 2);
    board.toggle(2, 1);
    board.toggle(2, 2);
    let board = step(board, true);
    assert_eq!(board.cell_at(1, 1), Cell::Alive(1));
    assert_eq!(board.cell_at(1, 2), Cell::Alive(1));
    assert_eq!(board.cell_at(2, 1), Cell::Alive(1));
    assert_eq!(board.cell_at(2, 2), Cell::Alive(1));
    let board = step(board, true);
    assert_eq!(board.cell_at(1, 1), Cell::Alive(2));
}

#[test]
fn lonely_cell_dies_at_age_zero() {
    let mut board = Board::with_size(5);
    board.toggle(2, 2);
    let board = step(board, true);
    assert_eq!(board.cell_at(2, 2), Cell::Dead(0));
}

#[test]
fn overcrowded_cell_dies_at_age_zero() {
    // The center of a 3x3 full square has 8 live neighbors.
    let mut board = Board::with_size(7);
    for r in 2..5 {
        for c in 2..5 {
            board.toggle(r, c);
        }
    }
    let board = step(board, true);
    assert_eq!(board.cell_at(3, 3), Cell::Dead(0));
}

#[test]
fn dead_cell_ages_by_one_when_not_born() {
    // Two toggles leave the cell dead at age 0; a step with no live
    // neighbors around must raise the age to 1, then 2.
    let mut board = Board::with_size(5);
    board.toggle(2, 2);
    board.toggle(2, 2);
    assert_eq!(board.cell_at(2, 2), Cell::Dead(0));
    let board = step(board, true);
    assert_eq!(board.cell_at(2, 2), Cell::Dead(1));
    let board = step(board, true);
    assert_eq!(board.cell_at(2, 2), Cell::Dead(2));
}

#[test]
fn dead_age_saturates_at_the_maximum() {
    // A fresh board is dead at u32::MAX everywhere; stepping must keep the
    // age capped there instead of wrapping around.
    let mut board = Board::with_size(4);
    for _ in 0..3 {
        board = step(board, true);
        assert_eq!(board.cell_at(0, 0), Cell::Dead(u32::MAX));
        assert_eq!(board.cell_at(3, 3), Cell::Dead(u32::MAX));
    }
}

#[test]
fn saturating_inc_caps_at_max() {
    assert_eq!(saturating_inc(0), 1);
    assert_eq!(saturating_inc(41), 42);
    assert_eq!(saturating_inc(u32::MAX - 1), u32::MAX);
    assert_eq!(saturating_inc(u32::MAX), u32::MAX);
}

#[test]
fn transition_matches_the_rule_exactly() {
    assert_eq!(transition(Cell::Dead(5), 3), Cell::Alive(0));
    assert_eq!(transition(Cell::Dead(5), 2), Cell::Dead(6));
    assert_eq!(transition(Cell::Dead(5), 0), Cell::Dead(6));
    assert_eq!(transition(Cell::Dead(u32::MAX), 0), Cell::Dead(u32::MAX));
    assert_eq!(transition(Cell::Alive(7), 2), Cell::Alive(8));
    assert_eq!(transition(Cell::Alive(7), 3), Cell::Alive(8));
    assert_eq!(transition(Cell::Alive(7), 1), Cell::Dead(0));
    assert_eq!(transition(Cell::Alive(7), 4), Cell::Dead(0));
    assert_eq!(transition(Cell::Alive(u32::MAX), 2), Cell::Alive(u32::MAX));
}

#[test]
fn toggle_twice_restores_polarity_with_age_zero() {
    let mut board = Board::with_size(5);
    assert_eq!(board.cell_at(1, 3), Cell::Dead(u32::MAX));
    board.toggle(1, 3);
    assert_eq!(board.cell_at(1, 3), Cell::Alive(0));
    board.toggle(1, 3);
    assert_eq!(board.cell_at(1, 3), Cell::Dead(0));
    board.toggle(1, 3);
    assert_eq!(board.cell_at(1, 3), Cell::Alive(0));
}

#[test]
fn toggle_touches_only_its_cell() {
    let mut board = Board::with_size(5);
    board.toggle(1, 3);
    for r in 0..5 {
        for c in 0..5 {
            if (r, c) != (1, 3) {
                assert_eq!(board.cell_at(r, c), Cell::Dead(u32::MAX));
            }
        }
    }
}

#[test]
fn cell_toggled_flips_polarity_and_zeroes_age() {
    assert_eq!(Cell::Alive(17).toggled(), Cell::Dead(0));
    assert_eq!(Cell::Dead(17).toggled(), Cell::Alive(0));
    assert_eq!(Cell::default(), Cell::Dead(u32::MAX));
    assert!(Cell::Alive(3).is_alive());
    assert!(!Cell::Dead(3).is_alive());
}

#[test]
fn blinker_oscillates_with_period_two() {
    let mut board = Board::with_size(5);
    board.toggle(2, 1);
    board.toggle(2, 2);
    board.toggle(2, 3);
    assert_eq!(live_cells(&board), vec![(2, 1), (2, 2), (2, 3)]);
    let board = step(board, true);
    assert_eq!(live_cells(&board), vec![(1, 2), (2, 2), (3, 2)]);
    assert_eq!(board.cell_at(1, 2), Cell::Alive(0));
    assert_eq!(board.cell_at(2, 2), Cell::Alive(1));
    assert_eq!(board.cell_at(3, 2), Cell::Alive(0));
    let board = step(board, true);
    assert_eq!(live_cells(&board), vec![(2, 1), (2, 2), (2, 3)]);
    assert_eq!(board.cell_at(2, 2), Cell::Alive(2));
}

#[test]
fn block_is_a_still_life() {
    let mut board = Board::with_size(5);
    board.toggle(1, 1);
    board.toggle(1, 2);
    board.toggle(2, 1);
    board.toggle(2, 2);
    for generation in 0u32..6 {
        board = step(board, true);
        assert_eq!(live_cells(&board), vec![(1, 1), (1, 2), (2, 1), (2, 2)]);
        assert_eq!(board.cell_at(1, 1), Cell::Alive(generation + 1));
    }
}
