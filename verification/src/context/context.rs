//! Contexts: the nodes of the tree that a build works on (root, projects,
//! modules, files), each carrying typed attachments.
use vstd::prelude::*;

verus! {

/// A value that can be attached to a context of type `C`; a context holds at
/// most one attachment of each type.
pub trait ContextAttachment<C>: Sized {
    /// The attachment of this type that `ctx` holds.
    spec fn attached(ctx: &C) -> Option<Self>;

    /// `after` holds what `before` holds, but for the attachment of this type.
    spec fn others_kept(before: &C, after: &C) -> bool;

    /// Attaches `self` to `ctx`, in place of any attachment of the same type;
    /// its other attachments and its children stay.
    fn attach(self, ctx: &mut C)
        ensures
            Self::attached(final(ctx)) == Some(self),
            Self::others_kept(old(ctx), final(ctx)),
    ;

    /// The attachment of this type that `ctx` holds.
    fn attached_ref(ctx: &C) -> (r: Option<&Self>)
        ensures
            match r {
                Some(a) => Self::attached(ctx) == Some(*a),
                None => Self::attached(ctx) is None,
            },
    ;
}

/// A node of the build tree.
pub trait Context: Sized {
    /// Attaches `value`, in place of any attachment of the same type; the
    /// other attachments and the children stay.
    fn set<CA: ContextAttachment<Self>>(&mut self, value: CA)
        ensures
            CA::attached(final(self)) == Some(value),
            CA::others_kept(old(self), final(self)),
    {
        value.attach(self)
    }

    /// The attachment of type `CA`.
    fn get<CA: ContextAttachment<Self>>(&self) -> (r: &CA)
        requires
            CA::attached(self) is Some,
        ensures
            CA::attached(self) == Some(*r),
    {
        match CA::attached_ref(self) {
            Some(a) => a,
            None => unreached(),
        }
    }
}

/// A node with an ordered list of child nodes.
pub trait HasChildren: Sized {
    type Child;

    /// The children, once they are set.
    spec fn children_of(&self) -> Option<Seq<Self::Child>>;

    /// `after` holds the attachments that `before` holds.
    spec fn attachments_kept(before: &Self, after: &Self) -> bool;

    /// Sets the children; the attachments stay.
    fn set_children(&mut self, children: Vec<Self::Child>)
        ensures
            final(self).children_of() == Some(children@),
            Self::attachments_kept(old(self), final(self)),
    ;

    /// The children.
    fn get_children(&self) -> (r: &Vec<Self::Child>)
        requires
            self.children_of() is Some,
        ensures
            self.children_of() == Some(r@),
    ;
}

} // verus!
