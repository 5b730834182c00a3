pub mod grid;
pub mod engine;
pub mod render;
pub mod laws;
