pub mod authenticate_user;
pub mod encrypt_volume;
pub mod install_package;
pub mod launch_process;
pub mod mount_filesystem;
