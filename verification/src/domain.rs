pub mod file;
pub mod package;
pub mod policy;
pub mod process;
pub mod session;
