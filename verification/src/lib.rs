//! A single-player typing game: a target phrase is typed character by
//! character, with live correctness feedback, word-accuracy and
//! words-per-minute metrics, and a record of past rounds.
//!
//! The crate holds the game-state model: the character-tracking structure
//! ([`text::GameString`]), the timed attempt ([`round::Round`]) and the
//! top-level state machine ([`game::Game`]). Rendering and raw keyboard
//! capture are left to the caller, which hands the game one [`keys::Key`]
//! and one clock reading per event.

pub mod game;
pub mod keys;
pub mod round;
pub mod text;
