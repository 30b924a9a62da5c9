//! The context of a module.
use vstd::prelude::*;
pub use crate::context::attachment::ModuleAttachment;
use crate::config::dep::DependenceAttachment;
use crate::config::ignore::IgnoreRulesAttachment;
use crate::context::context::{Context, ContextAttachment, HasChildren};
use crate::context::file::FileContext;

verus! {

/// A module of a project: its attachments and its source files.
#[derive(Debug)]
pub struct ModuleContext {
    pub module: Option<ModuleAttachment>,
    pub ignore_rules: Option<IgnoreRulesAttachment>,
    pub dependences: Option<DependenceAttachment>,
    pub children: Option<Vec<FileContext>>,
}

impl ModuleContext {
    /// A module context with no attachment and no children yet.
    pub fn new() -> (r: Self)
        ensures
            r.module is None,
            r.ignore_rules is None,
            r.dependences is None,
            r.children is None,
    {
        ModuleContext { module: None, ignore_rules: None, dependences: None, children: None }
    }
}

impl Context for ModuleContext {}

impl ContextAttachment<ModuleContext> for ModuleAttachment {
    open spec fn attached(ctx: &ModuleContext) -> Option<Self> {
        ctx.module
    }

    open spec fn others_kept(before: &ModuleContext, after: &ModuleContext) -> bool {
        &&& after.ignore_rules == before.ignore_rules
        &&& after.dependences == before.dependences
        &&& after.children == before.children
    }

    fn attach(self, ctx: &mut ModuleContext) {
        ctx.module = Some(self);
    }

    fn attached_ref(ctx: &ModuleContext) -> (r: Option<&Self>) {
        match &ctx.module {
            Some(a) => Some(a),
            None => None,
        }
    }
}

impl ContextAttachment<ModuleContext> for IgnoreRulesAttachment {
    open spec fn attached(ctx: &ModuleContext) -> Option<Self> {
        ctx.ignore_rules
    }

    open spec fn others_kept(before: &ModuleContext, after: &ModuleContext) -> bool {
        &&& after.module == before.module
        &&& after.dependences == before.dependences
        &&& after.children == before.children
    }

    fn attach(self, ctx: &mut ModuleContext) {
        ctx.ignore_rules = Some(self);
    }

    fn attached_ref(ctx: &ModuleContext) -> (r: Option<&Self>) {
        match &ctx.ignore_rules {
            Some(a) => Some(a),
            None => None,
        }
    }
}

impl ContextAttachment<ModuleContext> for DependenceAttachment {
    open spec fn attached(ctx: &ModuleContext) -> Option<Self> {
        ctx.dependences
    }

    open spec fn others_kept(before: &ModuleContext, after: &ModuleContext) -> bool {
        &&& after.module == before.module
        &&& after.ignore_rules == before.ignore_rules
        &&& after.children == before.children
    }

    fn attach(self, ctx: &mut ModuleContext) {
        ctx.dependences = Some(self);
    }

    fn attached_ref(ctx: &ModuleContext) -> (r: Option<&Self>) {
        match &ctx.dependences {
            Some(a) => Some(a),
            None => None,
        }
    }
}

impl HasChildren for ModuleContext {
    type Child = FileContext;

    open spec fn children_of(&self) -> Option<Seq<FileContext>> {
        match self.children {
            Some(c) => Some(c@),
            None => None,
        }
    }

    open spec fn attachments_kept(before: &ModuleContext, after: &ModuleContext) -> bool {
        &&& after.module == before.module
        &&& after.ignore_rules == before.ignore_rules
        &&& after.dependences == before.dependences
    }

    fn set_children(&mut self, children: Vec<FileContext>) {
        self.children = Some(children);
    }

    fn get_children(&self) -> (r: &Vec<FileContext>) {
        match &self.children {
            Some(c) => c,
            None => unreached(),
        }
    }
}

/// Read after write across attachment types: setting the attachment of one
/// type on a module, or its files, leaves the attachment of each other type as
/// it was, so a `get` of a type gives the value that the last `set` of that
/// type put there, whatever other types or files were set since.
pub proof fn lemma_set_keeps_other_types(before: &ModuleContext, after: &ModuleContext)
    ensures
        <ModuleContext as HasChildren>::attachments_kept(before, after) ==> {
            &&& <ModuleAttachment as ContextAttachment<ModuleContext>>::attached(after)
                == <ModuleAttachment as ContextAttachment<ModuleContext>>::attached(before)
            &&& <IgnoreRulesAttachment as ContextAttachment<ModuleContext>>::attached(after)
                == <IgnoreRulesAttachment as ContextAttachment<ModuleContext>>::attached(before)
            &&& <DependenceAttachment as ContextAttachment<ModuleContext>>::attached(after)
                == <DependenceAttachment as ContextAttachment<ModuleContext>>::attached(before)
        },
        <ModuleAttachment as ContextAttachment<ModuleContext>>::others_kept(before, after) ==> {
            &&& <IgnoreRulesAttachment as ContextAttachment<ModuleContext>>::attached(after)
                == <IgnoreRulesAttachment as ContextAttachment<ModuleContext>>::attached(before)
            &&& <DependenceAttachment as ContextAttachment<ModuleContext>>::attached(after)
                == <DependenceAttachment as ContextAttachment<ModuleContext>>::attached(before)
        },
        <IgnoreRulesAttachment as ContextAttachment<ModuleContext>>::others_kept(before, after) ==> {
            &&& <ModuleAttachment as ContextAttachment<ModuleContext>>::attached(after)
                == <ModuleAttachment as ContextAttachment<ModuleContext>>::attached(before)
            &&& <DependenceAttachment as ContextAttachment<ModuleContext>>::attached(after)
                == <DependenceAttachment as ContextAttachment<ModuleContext>>::attached(before)
        },
        <DependenceAttachment as ContextAttachment<ModuleContext>>::others_kept(before, after) ==> {
            &&& <ModuleAttachment as ContextAttachment<ModuleContext>>::attached(after)
                == <ModuleAttachment as ContextAttachment<ModuleContext>>::attached(before)
            &&& <IgnoreRulesAttachment as ContextAttachment<ModuleContext>>::attached(after)
                == <IgnoreRulesAttachment as ContextAttachment<ModuleContext>>::attached(before)
        },
{
}

} // verus!
