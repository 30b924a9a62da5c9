pub mod attachment;
pub mod context;
pub mod context_attachment;
pub mod file;
pub mod module;
pub mod project;
pub mod root;
