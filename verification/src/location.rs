//! Positions in source text.
use vstd::prelude::*;

verus! {

/// A line and column in a source file.
#[derive(Debug, Clone, Copy, PartialEq, Eq)]
pub struct SourcePosition {
    pub line: u32,
    pub column: u32,
}

/// Where a piece of source comes from: a byte range of a file, or built in.
#[derive(Debug, Clone, Copy, PartialEq, Eq)]
pub enum SourceLocation {
    File { start: u32, end: u32 },
    Builtin,
}

} // verus!
