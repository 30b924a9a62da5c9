//! Attachments of a file context with known line starts.
use vstd::prelude::*;

verus! {

/// A value that a context can carry.
pub trait ContextAttachment {}

/// A source file whose line starts are known.
#[derive(Debug)]
pub struct FileContextAttachment {
    pub builtin: bool,
    pub name: String,
    pub path: String,
    pub line_starts: Vec<u32>,
}

impl ContextAttachment for FileContextAttachment {}

impl Default for FileContextAttachment {
    fn default() -> (r: Self)
        ensures
            !r.builtin,
            r.name@ == Seq::<char>::empty(),
            r.path@ == Seq::<char>::empty(),
            r.line_starts@ == Seq::<u32>::empty(),
    {
        FileContextAttachment {
            builtin: false,
            name: String::new(),
            path: String::new(),
            line_starts: Vec::new(),
        }
    }
}

} // verus!
