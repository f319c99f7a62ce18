//! Paths and the velocity profiles laid along them.

pub mod bezier;
pub mod trajectory;
