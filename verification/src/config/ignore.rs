//! Rules that leave source files out of a module.
use vstd::prelude::*;

verus! {

/// The ignore rules of a module, sorted for lookup: the files that a file rule
/// names (each once), the rules on directories, and every rule as written.
#[derive(Debug)]
pub struct IgnoreRulesAttachment {
    pub file_paths: Vec<String>,
    pub dir_rules: Vec<IgnoreRule>,
    pub ignores: Vec<String>,
}

/// A rule as written (`ignore`), the path it applies to and what it leaves out.
#[derive(Debug)]
pub struct IgnoreRule {
    pub path: String,
    pub kind: IgnoreKind,
    pub ignore: String,
}

/// What a rule leaves out: one file (`a/b.pzl`), the files directly in a
/// directory (`a/*`), or a whole directory tree (`a/**`).
#[derive(Debug, Clone, Copy, PartialEq, Eq, Structural, Hash)]
pub enum IgnoreKind {
    File,
    Children,
    Recursive,
}

/// The mathematical value of an [`IgnoreRule`].
pub struct IgnoreRuleView {
    pub path: Seq<char>,
    pub kind: IgnoreKind,
    pub ignore: Seq<char>,
}

impl View for IgnoreRule {
    type V = IgnoreRuleView;

    open spec fn view(&self) -> IgnoreRuleView {
        IgnoreRuleView { path: self.path@, kind: self.kind, ignore: self.ignore@ }
    }
}

/// The views of a sequence of rules.
pub open spec fn rule_views(rules: Seq<IgnoreRule>) -> Seq<IgnoreRuleView> {
    rules.map_values(|r: IgnoreRule| r@)
}

impl IgnoreRulesAttachment {
    /// Its well-formedness: no file path occurs twice and every directory rule
    /// is about a directory.
    pub open spec fn wf(&self) -> bool {
        &&& forall|i: int, j: int|
            0 <= i < j < self.file_paths@.len() ==> self.file_paths@[i]@ != self.file_paths@[j]@
        &&& forall|i: int|
            0 <= i < self.dir_rules@.len() ==> (#[trigger] self.dir_rules@[i]).kind != IgnoreKind::File
    }
}

} // verus!
