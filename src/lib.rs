//! Per-frame rules of a small arcade game: a player sprite collects
//! "ferris" targets that appear on mouse clicks and on a repeating timer.
//!
//! The host engine owns rendering, input, audio and collision detection.
//! Each frame it hands this library a [`game::FrameInput`]; the library
//! updates its [`game::GameState`] and answers with the
//! [`game::FrameActions`] the host must carry out.

pub mod collision;
pub mod game;
pub mod laws;
pub mod text;
pub mod timer;
