//! Game rules of a vertical scrolling shooter: score and extra lives, the
//! player's remaining lives, enemy health stages, boss attack phases, the
//! enemy spawn list format and schedule, sound effect batching and the game
//! state transitions.

pub mod decimal;
pub mod score;
pub mod life;
pub mod se;
pub mod game_state;
pub mod explosion;
pub mod enemy;
pub mod boss;
pub mod enemy_list;
pub mod spawn_schedule;
pub mod player;
pub mod hud;
pub mod game_clear;
