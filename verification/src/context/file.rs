//! The context of a source file.
use vstd::prelude::*;
pub use crate::context::attachment::FileAttachment;
use crate::context::context::{Context, ContextAttachment};

verus! {

/// A source file of a module.
#[derive(Debug)]
pub struct FileContext {
    pub file: Option<FileAttachment>,
}

impl FileContext {
    /// A file context with no attachment.
    pub fn new() -> (r: Self)
        ensures
            r.file is None,
    {
        FileContext { file: None }
    }
}

impl Context for FileContext {}

impl ContextAttachment<FileContext> for FileAttachment {
    open spec fn attached(ctx: &FileContext) -> Option<Self> {
        ctx.file
    }

    open spec fn others_kept(before: &FileContext, after: &FileContext) -> bool {
        true
    }

    fn attach(self, ctx: &mut FileContext) {
        ctx.file = Some(self);
    }

    fn attached_ref(ctx: &FileContext) -> (r: Option<&Self>) {
        match &ctx.file {
            Some(a) => Some(a),
            None => None,
        }
    }
}

} // verus!
