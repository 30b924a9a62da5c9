//! The root of the build tree.
use vstd::prelude::*;
use crate::context::context::{Context, ContextAttachment, HasChildren};
use crate::context::project::ProjectContext;

verus! {

/// The root of the build tree: the projects of a build.
#[derive(Debug)]
pub struct RootContext {
    pub root: Option<RootAttachment>,
    pub children: Option<Vec<ProjectContext>>,
}

/// What is known of the whole build: the length of the longest source path.
#[derive(Debug)]
pub struct RootAttachment {
    pub max_path_length: usize,
}

impl Default for RootContext {
    fn default() -> (r: Self)
        ensures
            r.root is None,
            r.children is None,
    {
        RootContext { root: None, children: None }
    }
}

impl Context for RootContext {}

impl ContextAttachment<RootContext> for RootAttachment {
    open spec fn attached(ctx: &RootContext) -> Option<Self> {
        ctx.root
    }

    open spec fn others_kept(before: &RootContext, after: &RootContext) -> bool {
        after.children == before.children
    }

    fn attach(self, ctx: &mut RootContext) {
        ctx.root = Some(self);
    }

    fn attached_ref(ctx: &RootContext) -> (r: Option<&Self>) {
        match &ctx.root {
            Some(a) => Some(a),
            None => None,
        }
    }
}

impl HasChildren for RootContext {
    type Child = ProjectContext;

    open spec fn children_of(&self) -> Option<Seq<ProjectContext>> {
        match self.children {
            Some(c) => Some(c@),
            None => None,
        }
    }

    open spec fn attachments_kept(before: &RootContext, after: &RootContext) -> bool {
        after.root == before.root
    }

    fn set_children(&mut self, children: Vec<ProjectContext>) {
        self.children = Some(children);
    }

    fn get_children(&self) -> (r: &Vec<ProjectContext>) {
        match &self.children {
            Some(c) => c,
            None => unreached(),
        }
    }
}

/// Read after write: setting the projects of the root keeps its attachment,
/// so a `get` gives the value that the last `set` put there.
pub proof fn lemma_updates_keep_attachment(before: &RootContext, after: &RootContext)
    ensures
        <RootContext as HasChildren>::attachments_kept(before, after) ==> <RootAttachment as ContextAttachment<RootContext>>::attached(after)
            == <RootAttachment as ContextAttachment<RootContext>>::attached(before),
{
}

} // verus!
