//! Motion control and pose estimation for a differential-drive robot,
//! carried out in fixed-point arithmetic.
//!
//! Every physical quantity is an `i64` that counts millionths of its unit:
//! radians for angles, inches for lengths, seconds for durations, volts for
//! motor commands. Arithmetic saturates at the ends of the `i64` range
//! instead of wrapping or trapping. The unscented filter alone counts in
//! finer steps, and says so.

pub mod backend;
pub mod controllers;
pub mod diagnostics;
pub mod hardware;
pub mod math;
pub mod motion;
pub mod pose;
pub mod settings;
pub mod subsystems;
pub mod utils;
