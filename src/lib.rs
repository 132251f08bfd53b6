//! A realtime audio mixing core in decimal fixed point.
//!
//! Sample values, gains, panning and playback rates are integers in
//! micro-units: `UNIT` (one million) stands for 1.0. Playback cursors are
//! measured in micro-frames.
pub mod frame;
pub mod data;
pub mod tween;
pub mod command;
pub mod sound;
pub mod clock;
pub mod mixer;
pub mod renderer;
pub mod asset;
