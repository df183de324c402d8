//! A two-player Reversi board with cursor-driven play: board setup, the
//! eight-direction capture scan, move legality, input handling and the
//! per-cell rendering decisions, each stated and proved with Verus.

pub mod board;
pub mod capture;
pub mod input;
pub mod render;
