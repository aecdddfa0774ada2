//! A grid snake game: the snake, its food and the per-tick rules that move them.
pub mod food;
pub mod game;
pub mod grid;
pub mod snake;
