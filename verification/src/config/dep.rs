//! The dependences of a module.
use vstd::prelude::*;

verus! {

/// The dependences attached to a module.
#[derive(Debug)]
pub struct DependenceAttachment {
    pub deps: Vec<Dependence>,
}

/// A module of some project that a module depends on.
#[derive(Debug)]
pub struct Dependence {
    pub project_name: String,
    pub module_name: String,
}

} // verus!
