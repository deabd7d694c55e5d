//! Conway's Game of Life on a fixed-size toroidal grid.
//!
//! [`grid`] holds the simulation engine and its model; [`theorems`] states
//! what holds across its operations; [`session`] holds the decisions that an
//! interactive front end takes once per frame.
pub mod grid;
pub mod session;
pub mod theorems;
