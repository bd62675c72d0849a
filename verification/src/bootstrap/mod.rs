//! Start-up decisions that do not need the graphics device itself.
pub mod graphics;
