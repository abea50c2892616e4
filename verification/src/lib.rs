//! Conway's Game of Life on an unbounded grid, with a sparse live-cell
//! representation, a frontier-restricted transition engine, a bounded undo
//! history, and windowed text rendering.

pub mod board;
pub mod laws;
pub mod patterns;
pub mod render;
pub mod rules;

pub use board::GameOfLife;
pub use render::Viewport;
pub use render::ViewportRender;
