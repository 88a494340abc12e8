//! Core rules of a grid snake game: movement, collisions, food and combo
//! scoring, the difficulty ramp, adjustable settings, the persisted
//! high-score table and the decisions of a play session. Times and
//! durations are integers in microseconds.

pub mod game;
pub mod menu;
pub mod persistence;
mod rng;
pub mod session;
pub mod settings;
pub mod text;
