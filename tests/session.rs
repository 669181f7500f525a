use chess_game::chess_board::{ChessBoard, Player};
use chess_game::game::ChessGame;
use chess_game::piece_registry::PieceRegistry;

fn cells(board: &ChessBoard) -> Vec<(usize, usize, Option<chess_game::chess_board::Piece>)> {
    board.iter()
}

#[test]
fn new_game_starts_on_starting_board() {
    let game = ChessGame::new(PieceRegistry::fake_it());
    assert!(game.pending_selection().is_none());
    assert_eq!(cells(game.actual_board()), cells(&ChessBoard::new()));
    assert_eq!(game.actual_board().turn(), Player::White);
}

#[test]
fn select_then_commit_move() {
    let mut game = ChessGame::new(PieceRegistry::fake_it());
    game.activate(0, 6);
    let selection = game.pending_selection().expect("selected");
    assert_eq!((selection.x, selection.y), (0, 6));
    assert!(selection.choice.is_available(0, 5));
    assert!(selection.choice.is_available(0, 4));
    assert!(!selection.choice.is_available(0, 3));
    game.activate(0, 4);
    assert!(game.pending_selection().is_none());
    let board = game.actual_board();
    assert_eq!(board.turn(), Player::Black);
    assert_eq!(board.get_piece(0, 6), None);
    let moved = board.get_piece(0, 4).unwrap();
    assert_eq!(moved.player, Player::White);
    assert!(!moved.not_moved);
}

#[test]
fn empty_or_opponent_cell_is_ignored_when_idle() {
    let mut game = ChessGame::new(PieceRegistry::fake_it());
    game.activate(4, 4);
    assert!(game.pending_selection().is_none());
    game.activate(4, 1);
    assert!(game.pending_selection().is_none());
    assert_eq!(cells(game.actual_board()), cells(&ChessBoard::new()));
}

#[test]
fn unreachable_cell_clears_selection() {
    let mut game = ChessGame::new(PieceRegistry::fake_it());
    game.activate(0, 6);
    assert!(game.pending_selection().is_some());
    game.activate(0, 2);
    assert!(game.pending_selection().is_none());
    assert_eq!(cells(game.actual_board()), cells(&ChessBoard::new()));
    assert_eq!(game.actual_board().turn(), Player::White);
}

#[test]
fn reclicking_origin_clears_selection() {
    let mut game = ChessGame::new(PieceRegistry::fake_it());
    game.activate(1, 7);
    assert!(game.pending_selection().is_some());
    game.activate(1, 7);
    assert!(game.pending_selection().is_none());
    assert_eq!(cells(game.actual_board()), cells(&ChessBoard::new()));
}

#[test]
fn off_board_activation_clears_selection() {
    let mut game = ChessGame::new(PieceRegistry::fake_it());
    game.activate(3, 6);
    assert!(game.pending_selection().is_some());
    game.activate(8, 3);
    assert!(game.pending_selection().is_none());
    assert_eq!(cells(game.actual_board()), cells(&ChessBoard::new()));
}

#[test]
fn undo_restores_board_before_move() {
    let mut game = ChessGame::new(PieceRegistry::fake_it());
    game.activate(1, 7);
    game.activate(2, 5);
    let after_first = cells(game.actual_board());
    game.activate(4, 1);
    game.activate(4, 3);
    assert_eq!(game.actual_board().turn(), Player::White);
    game.undo_or_exit();
    assert_eq!(cells(game.actual_board()), after_first);
    assert_eq!(game.actual_board().turn(), Player::Black);
    game.undo_or_exit();
    assert_eq!(cells(game.actual_board()), cells(&ChessBoard::new()));
    assert_eq!(game.actual_board().turn(), Player::White);
}

#[test]
fn undo_on_initial_state_is_noop() {
    let mut game = ChessGame::new(PieceRegistry::fake_it());
    let before = cells(game.actual_board());
    game.undo_or_exit();
    assert_eq!(cells(game.actual_board()), before);
    assert_eq!(game.actual_board().turn(), Player::White);
    assert!(game.pending_selection().is_none());
}

#[test]
fn undo_clears_pending_selection() {
    let mut game = ChessGame::new(PieceRegistry::fake_it());
    game.activate(6, 7);
    assert!(game.pending_selection().is_some());
    game.undo_or_exit();
    assert!(game.pending_selection().is_none());
}

#[test]
fn clear_selection_keeps_board() {
    let mut game = ChessGame::new(PieceRegistry::fake_it());
    game.activate(6, 6);
    assert!(game.pending_selection().is_some());
    game.clear_selection();
    assert!(game.pending_selection().is_none());
    assert_eq!(cells(game.actual_board()), cells(&ChessBoard::new()));
}
