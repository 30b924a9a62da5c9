//! The contents of a project's `puzzle.toml`.
use vstd::prelude::*;

verus! {

/// A project's `puzzle.toml`: the `[project]` table, the `[modules]` table and
/// the `[deps]` table. The entries of a table are kept in the order in which
/// they were read; their keys are distinct (see [`ProjectToml::wf`]).
#[derive(Debug)]
pub struct ProjectToml {
    pub project: Option<Project>,
    pub modules: Option<Vec<(String, Module)>>,
    pub deps: Option<Vec<(String, Dep)>>,
}

/// The `[project]` table.
#[derive(Debug)]
pub struct Project {
    pub version: Option<String>,
    pub name: Option<String>,
    pub entry: Option<String>,
}

/// An entry of the `[modules]` table.
#[derive(Debug)]
pub struct Module {
    pub path: Option<String>,
}

/// An entry of the `[deps]` table.
#[derive(Debug)]
pub struct Dep {
    pub path: Option<String>,
    pub module: Option<String>,
}

/// No key names two entries of the table `entries`.
pub open spec fn distinct_keys<T>(entries: Seq<(String, T)>) -> bool {
    forall|i: int, j: int| 0 <= i < j < entries.len() ==> (#[trigger] entries[i]).0@ != (#[trigger] entries[j]).0@
}

impl ProjectToml {
    /// Its well-formedness, as a table read from TOML has it: in the
    /// `[modules]` and `[deps]` tables no key occurs twice.
    pub open spec fn wf(&self) -> bool {
        &&& self.modules matches Some(ms) ==> distinct_keys(ms@)
        &&& self.deps matches Some(ds) ==> distinct_keys(ds@)
    }
}

/// Whether `key` names an entry of the table `entries`.
pub open spec fn has_key<T>(entries: Seq<(String, T)>, key: Seq<char>) -> bool {
    exists|i: int| 0 <= i < entries.len() && #[trigger] entries[i].0@ == key
}

} // verus!
