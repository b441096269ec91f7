pub mod carve;
pub mod compass;
pub mod config;
pub mod decor;
pub mod generate;
pub mod geometry;
pub mod grid;
pub mod layout;
pub mod level;
pub mod mesh;
pub mod paths;
pub mod random;
pub mod screen;
