pub mod text;
pub mod pattern;
pub mod ansi;
pub mod extension;
pub mod location;
pub mod error;
pub mod config;
pub mod driver;
pub mod context;
pub mod options;
pub mod cli;
pub mod time;
pub mod environment;
