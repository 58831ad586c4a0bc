//! Logic of a small display-and-LED-matrix firmware: the animation rules of a
//! packed 8x8 intensity grid, the mapping of a frame counter onto indicator
//! lines, the framing of display bus transfers, the start-up protocols of the
//! supported display controllers and the per-frame render plan.

pub mod display;
pub mod indicators;
pub mod matrix;
pub mod render;
pub mod seeding;
pub mod telemetry;
pub mod transport;
