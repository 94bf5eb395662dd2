pub mod layout;
pub mod wm;
