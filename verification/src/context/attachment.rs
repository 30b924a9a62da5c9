//! The attachments of projects, modules and files.
use vstd::prelude::*;
pub use crate::context::context::ContextAttachment;

verus! {

/// The name and directory of a project.
#[derive(Debug)]
pub struct ProjectAttachment {
    pub name: String,
    pub path: String,
}

/// The name of a module and the parts of its group.
#[derive(Debug)]
pub struct ModuleAttachment {
    pub name: String,
    pub group: Vec<String>,
}

/// A source file: whether it is built in, its name and path, and where its
/// lines start once it has been read.
#[derive(Debug)]
pub struct FileAttachment {
    pub builtin: bool,
    pub name: String,
    pub path: String,
    pub line_starts: Option<Vec<u32>>,
}

impl Default for ProjectAttachment {
    fn default() -> (r: Self)
        ensures
            r.name@ == Seq::<char>::empty(),
            r.path@ == Seq::<char>::empty(),
    {
        ProjectAttachment { name: String::new(), path: String::new() }
    }
}

impl Default for ModuleAttachment {
    fn default() -> (r: Self)
        ensures
            r.name@ == Seq::<char>::empty(),
            r.group@ == Seq::<String>::empty(),
    {
        ModuleAttachment { name: String::new(), group: Vec::new() }
    }
}

} // verus!
