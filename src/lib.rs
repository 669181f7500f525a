pub mod grid;
pub mod selection;
pub mod piece_registry;
pub mod chess_board;
pub mod game;
