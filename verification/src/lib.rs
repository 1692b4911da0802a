//! A pocket calculator's entry buffer and operator sequencing.

pub mod app;
pub mod digits;
pub mod operation;
pub mod screen;
pub mod typing;
