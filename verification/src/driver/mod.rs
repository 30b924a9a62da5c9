pub mod error;
pub mod validate;
pub mod collect;
pub mod sources;
pub mod report;
pub mod locate;
pub mod projects;
