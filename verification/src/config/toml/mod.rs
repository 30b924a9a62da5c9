pub mod module;
pub mod project;
