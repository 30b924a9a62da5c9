//! The settings of a running build.
use vstd::prelude::*;

verus! {

/// The settings of a running build: the project path and which features are on.
pub struct Environment {
    pub project_path: Option<String>,
    pub enable_export_ast: bool,
    pub enable_ansi_color: bool,
    pub enable_stack_trace: bool,
    pub enable_info_progress: bool,
    pub enable_info_ignore: bool,
    pub enable_info_file: bool,
}

impl Default for Environment {
    fn default() -> (r: Self)
        ensures
            r.project_path is None,
            !r.enable_export_ast,
            !r.enable_ansi_color,
            !r.enable_stack_trace,
            !r.enable_info_progress,
            !r.enable_info_ignore,
            !r.enable_info_file,
    {
        Environment {
            project_path: None,
            enable_export_ast: false,
            enable_ansi_color: false,
            enable_stack_trace: false,
            enable_info_progress: false,
            enable_info_ignore: false,
            enable_info_file: false,
        }
    }
}

} // verus!
