pub mod app;
pub mod file_explorer;
pub mod process_monitor;
pub mod taskbar;
pub mod terminal;
pub mod theme;
