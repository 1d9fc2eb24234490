//! Ten-pin bowling: frames, the rules that score a game, strategies that
//! draw random frames, and the text of a scoreboard.

pub mod game;
pub mod generators;
pub mod pins;
pub mod text;
