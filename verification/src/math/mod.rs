//! Fixed-point numbers and the quantities built on them.

pub mod angle;
pub mod length;
pub mod linalg;
pub mod scalar;
pub mod trig;
