//! Game rules of a four-sided beach pong game: sides, teams, hit points,
//! screen and state transitions, and the spawning decisions that the
//! engine layer carries out.

pub mod config;
pub mod crab_input;
pub mod input;
pub mod movement;
pub mod player_input;
pub mod scoring;
pub mod screens;
pub mod search;
pub mod side;
pub mod spawning;
pub mod states;
pub mod team;
pub mod ui;
