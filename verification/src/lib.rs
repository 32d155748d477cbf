//! The grid, geometry and input logic of a 2D particle fluid demo: particle
//! counts on a coarse grid, marching-squares triangulation of that grid,
//! the initial particle layout, and the mouse and obstacle decisions.
pub mod geometry;
pub mod lookup;
pub mod density_grid;
pub mod marching_squares;
pub mod layout;
pub mod mouse_control;
pub mod tiling;
