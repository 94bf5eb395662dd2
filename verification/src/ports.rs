pub mod auth;
pub mod encryption;
pub mod filesystem;
pub mod package_mgr;
pub mod process_mgr;
