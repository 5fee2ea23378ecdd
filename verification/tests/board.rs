//! The merge-puzzle board: coordinate mapping and the sliding and merging
//! rules, on concrete boards.

use snakeos::game2048::{Board, Tile};
use snakeos::world::Direction;

#[test]
fn test_pos() {
    let board = Board::new(3, 4, 0);

    assert_eq!(board.pos(Direction::Left, 1, 1), 5);
    assert_eq!(board.pos(Direction::Left, 2, 2), 10);

    assert_eq!(board.pos(Direction::Right, 1, 1), 6);
    assert_eq!(board.pos(Direction::Right, 2, 2), 9);

    assert_eq!(board.pos(Direction::Up, 3, 1), 7);
    assert_eq!(board.pos(Direction::Up, 2, 2), 10);

    assert_eq!(board.pos(Direction::Down, 3, 2), 3);
    assert_eq!(board.pos(Direction::Down, 3, 1), 7);
    assert_eq!(board.pos(Direction::Down, 2, 2), 2);
}

#[test]
fn test_move_simple() {
    let mut board = Board::new(3, 4, 0);

    board.get_tile_mut(Direction::Left, 0, 0).val = Some(2);
    board.get_tile_mut(Direction::Left, 1, 1).val = Some(4);
    board.get_tile_mut(Direction::Left, 2, 2).val = Some(8);

    board.move_direction(Direction::Left);

    assert_eq!(board.get_tile_mut(Direction::Left, 0, 0).val, Some(2));
    assert_eq!(board.get_tile_mut(Direction::Left, 1, 0).val, Some(4));
    assert_eq!(board.get_tile_mut(Direction::Left, 2, 0).val, Some(8));

    assert_eq!(board.get_tile_mut(Direction::Left, 1, 1).val, None);
    assert_eq!(board.get_tile_mut(Direction::Left, 2, 2).val, None);
}

#[test]
fn test_move_mutiple() {
    let mut board = Board::new(3, 5, 0);

    board.get_tile_mut(Direction::Right, 0, 0).val = None;
    board.get_tile_mut(Direction::Right, 0, 1).val = Some(2);
    board.get_tile_mut(Direction::Right, 0, 2).val = None;
    board.get_tile_mut(Direction::Right, 0, 3).val = Some(4);

    board.move_direction(Direction::Right);

    assert_eq!(board.get_tile_mut(Direction::Right, 0, 0).val, Some(2));
    assert_eq!(board.get_tile_mut(Direction::Right, 0, 1).val, Some(4));
    assert_eq!(board.get_tile_mut(Direction::Right, 0, 2).val, None);
    assert_eq!(board.get_tile_mut(Direction::Right, 0, 3).val, None);
    assert_eq!(board.get_tile_mut(Direction::Right, 0, 4).val, None);
}

#[test]
fn test_merge() {
    let mut board = Board::new(5, 3, 0);

    board.get_tile_mut(Direction::Up, 0, 0).val = None;
    board.get_tile_mut(Direction::Up, 0, 1).val = Some(2);
    board.get_tile_mut(Direction::Up, 0, 2).val = None;
    board.get_tile_mut(Direction::Up, 0, 3).val = Some(2);
    board.get_tile_mut(Direction::Up, 0, 4).val = Some(4);

    board.move_direction(Direction::Up);

    assert_eq!(board.get_tile_mut(Direction::Up, 0, 0).val, Some(4));
    assert_eq!(board.get_tile_mut(Direction::Up, 0, 1).val, Some(4));
    assert_eq!(board.get_tile_mut(Direction::Up, 0, 2).val, None);
    assert_eq!(board.get_tile_mut(Direction::Up, 0, 3).val, None);
    assert_eq!(board.get_tile_mut(Direction::Up, 0, 4).val, None);
}

#[test]
fn test_not_merge() {
    let mut board = Board::new(5, 3, 0);

    board.get_tile_mut(Direction::Up, 0, 0).val = None;
    board.get_tile_mut(Direction::Up, 0, 1).val = Some(2);
    board.get_tile_mut(Direction::Up, 0, 2).val = None;
    board.get_tile_mut(Direction::Up, 0, 3).val = Some(4);
    board.get_tile_mut(Direction::Up, 0, 4).val = Some(2);

    board.move_direction(Direction::Up);

    assert_eq!(board.get_tile_mut(Direction::Up, 0, 0).val, Some(2));
    assert_eq!(board.get_tile_mut(Direction::Up, 0, 1).val, Some(4));
    assert_eq!(board.get_tile_mut(Direction::Up, 0, 2).val, Some(2));
    assert_eq!(board.get_tile_mut(Direction::Up, 0, 3).val, None);
    assert_eq!(board.get_tile_mut(Direction::Up, 0, 4).val, None);
}

#[test]
fn board_state_queries() {
    let mut board = Board::new(2, 2, 123);
    assert!(!board.has_changed());
    assert!(!board.is_game_over());
    assert_eq!(board.max_val(), 0);

    // Fill all four tiles so that nothing can merge: the game is over.
    board.get_tile_mut(Direction::Up, 0, 0).val = Some(2);
    board.get_tile_mut(Direction::Up, 1, 0).val = Some(4);
    board.get_tile_mut(Direction::Up, 0, 1).val = Some(8);
    board.get_tile_mut(Direction::Up, 1, 1).val = Some(16);
    assert!(board.is_game_over());
    assert_eq!(board.max_val(), 16);

    // Make one vertical pair equal: a merge is possible again.
    board.get_tile_mut(Direction::Up, 0, 1).val = Some(2);
    assert!(!board.is_game_over());
}

#[test]
fn random_fill_uses_only_empty_tiles() {
    let mut board = Board::new(2, 2, 42);
    // Fill three of the four tiles; the random fill must take the last one.
    board.get_tile_mut(Direction::Up, 0, 0).val = Some(2);
    board.get_tile_mut(Direction::Up, 1, 0).val = Some(4);
    board.get_tile_mut(Direction::Up, 0, 1).val = Some(8);
    assert!(board.random_fill_empty_tile());
    let v = board.get_tile_mut(Direction::Up, 1, 1).val;
    assert!(v == Some(2) || v == Some(4));
    // Nothing is empty now, so another fill reports failure.
    assert!(!board.random_fill_empty_tile());
}

#[test]
fn reset_clears_and_marks_tiles() {
    let mut board = Board::new(2, 3, 9);
    board.get_tile_mut(Direction::Up, 0, 0).val = Some(2);
    board.reset();
    assert!(board.has_changed());
    assert_eq!(board.max_val(), 0);
    let marked: Vec<Tile> = board.tiles_need_redraw();
    assert_eq!(marked.len(), 6);
    board.clear_changed();
    assert!(!board.has_changed());
    assert_eq!(board.tiles_need_redraw().len(), 0);
}
