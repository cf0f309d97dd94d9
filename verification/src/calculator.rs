pub mod activator;
pub mod buy_window;
pub mod config;
pub mod history;
pub mod selected;
pub mod total_ev;
