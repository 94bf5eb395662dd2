pub mod fmt;
pub mod text;
pub mod domain;
pub mod ports;
pub mod infrastructure;
pub mod use_cases;
pub mod ui;
pub mod kernel;
