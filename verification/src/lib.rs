//! Timing core of a rhythm game.
//!
//! Notes travel along one axis from a spawn coordinate to a target coordinate
//! and must arrive there at the instant their chart says they should be hit.
//! The crate compiles a chart into a spawn schedule, releases scheduled notes
//! tick by tick, moves the notes in play, judges them against the player's
//! input and keeps the score.
//!
//! All quantities are integers. Time is counted in microseconds, speeds in
//! thousandths of a coordinate unit per second and note positions in
//! billionths of a coordinate unit, so that a note moving at speed `v` for
//! `t` microseconds covers exactly `v * t` position steps.

pub mod consts;
pub mod types;
pub mod input;
pub mod track;
pub mod chart;
pub mod note;
pub mod score;
pub mod gameplay;
