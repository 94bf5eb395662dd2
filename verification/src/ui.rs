pub mod desktop;
pub mod shell;
pub mod window_manager;
