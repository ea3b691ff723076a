//! A two-player naval combat game on a square grid: coordinates, vessels,
//! boards and the match that ties two boards together.

pub mod backwards;
pub mod display;
pub mod game;
pub mod grid;
pub mod lobby;
pub mod location;
pub mod seqs;
pub mod session;
pub mod ship;
pub mod text;
