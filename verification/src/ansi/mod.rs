pub mod ansi;
pub mod io;
