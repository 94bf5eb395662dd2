pub mod allocator;
pub mod boot;
