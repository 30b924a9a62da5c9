//! The context of a project.
use vstd::prelude::*;
pub use crate::context::attachment::ProjectAttachment;
use crate::context::context::{Context, ContextAttachment, HasChildren};
use crate::context::module::ModuleContext;

verus! {

/// A project: its attachment and its modules.
#[derive(Debug)]
pub struct ProjectContext {
    pub project: Option<ProjectAttachment>,
    pub children: Option<Vec<ModuleContext>>,
}

impl ProjectContext {
    /// A project context with no attachment and no children yet.
    pub fn new() -> (r: Self)
        ensures
            r.project is None,
            r.children is None,
    {
        ProjectContext { project: None, children: None }
    }
}

impl Context for ProjectContext {}

impl ContextAttachment<ProjectContext> for ProjectAttachment {
    open spec fn attached(ctx: &ProjectContext) -> Option<Self> {
        ctx.project
    }

    open spec fn others_kept(before: &ProjectContext, after: &ProjectContext) -> bool {
        after.children == before.children
    }

    fn attach(self, ctx: &mut ProjectContext) {
        ctx.project = Some(self);
    }

    fn attached_ref(ctx: &ProjectContext) -> (r: Option<&Self>) {
        match &ctx.project {
            Some(a) => Some(a),
            None => None,
        }
    }
}

impl HasChildren for ProjectContext {
    type Child = ModuleContext;

    open spec fn children_of(&self) -> Option<Seq<ModuleContext>> {
        match self.children {
            Some(c) => Some(c@),
            None => None,
        }
    }

    open spec fn attachments_kept(before: &ProjectContext, after: &ProjectContext) -> bool {
        after.project == before.project
    }

    fn set_children(&mut self, children: Vec<ModuleContext>) {
        self.children = Some(children);
    }

    fn get_children(&self) -> (r: &Vec<ModuleContext>) {
        match &self.children {
            Some(c) => c,
            None => unreached(),
        }
    }
}

/// Read after write: setting the modules of a project keeps its attachment,
/// so a `get` gives the value that the last `set` put there.
pub proof fn lemma_updates_keep_attachment(before: &ProjectContext, after: &ProjectContext)
    ensures
        <ProjectContext as HasChildren>::attachments_kept(before, after) ==> <ProjectAttachment as ContextAttachment<ProjectContext>>::attached(after)
            == <ProjectAttachment as ContextAttachment<ProjectContext>>::attached(before),
{
}

} // verus!
