//! The contents of a module's `puzzle.toml`.
use vstd::prelude::*;

verus! {

/// A module's `puzzle.toml`: the `[module]` table.
#[derive(Debug)]
pub struct ModuleToml {
    pub module: Option<Module>,
}

/// The `[module]` table.
#[derive(Debug)]
pub struct Module {
    pub version: Option<String>,
    pub name: Option<String>,
    pub group: Option<String>,
    pub ignores: Option<Vec<String>>,
    pub deps: Option<Vec<String>>,
}

} // verus!
