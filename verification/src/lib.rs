pub mod actor;
pub mod ball;
pub mod collision_helper;
pub mod math_helper;
pub mod player_paddle;
pub mod scoreboard;
pub mod wall;
pub mod world;
