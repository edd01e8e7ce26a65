//! Conway's Game of Life on a finite grid, with a text viewport onto it.

mod board;
mod display;
mod gol;
mod pos;

pub use board::{
    lemma_fresh_board_all_dead, lemma_neighbor_count_bounds, lemma_set_then_get, next_alive, Board,
};
pub use display::{get_viewport_data, lemma_viewport_deterministic, viewport_fails, viewport_rows};
pub use gol::GoL;
pub use pos::{Dimensions, Position};
