pub mod error;
pub mod info;
pub mod parse;
