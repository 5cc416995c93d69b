pub mod game_moniter;
pub mod log_config;
pub mod manager;
pub mod mode_switch;
pub mod state;
