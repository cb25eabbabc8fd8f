pub mod game_constants;
pub mod object;
pub mod utils;
pub mod formatter;
pub mod tint;
pub mod game;
