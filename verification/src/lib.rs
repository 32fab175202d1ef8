//! Rules engine for a falling-block puzzle game on a fixed 24 x 10 grid:
//! piece geometry and rotation, wall-kick resolution, collision detection,
//! line clearing with scoring, and the game session state machine.

pub mod board;
pub mod engine;
pub mod kicks;
pub mod piece;
