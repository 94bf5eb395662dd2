pub mod auth;
pub mod crypto;
pub mod fs;
pub mod packages;
pub mod process;
