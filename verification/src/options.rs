//! The options given on the command line.
use vstd::prelude::*;

verus! {

/// The options of a build: the project to build and which features, exports
/// and progress information are on.
#[derive(Debug)]
pub struct CliOptions {
    pub project_path: Option<String>,
    pub enable_export_ast: bool,
    pub enable_ansi_color: bool,
    pub enable_info_progress: bool,
    pub enable_info_ignore: bool,
    pub enable_info_file: bool,
}

/// The mathematical value of [`CliOptions`].
pub struct CliOptionsView {
    pub project_path: Option<Seq<char>>,
    pub enable_export_ast: bool,
    pub enable_ansi_color: bool,
    pub enable_info_progress: bool,
    pub enable_info_ignore: bool,
    pub enable_info_file: bool,
}

impl View for CliOptions {
    type V = CliOptionsView;

    open spec fn view(&self) -> CliOptionsView {
        CliOptionsView {
            project_path: match self.project_path {
                Some(p) => Some(p@),
                None => None,
            },
            enable_export_ast: self.enable_export_ast,
            enable_ansi_color: self.enable_ansi_color,
            enable_info_progress: self.enable_info_progress,
            enable_info_ignore: self.enable_info_ignore,
            enable_info_file: self.enable_info_file,
        }
    }
}

/// No project and every option off.
pub open spec fn default_options() -> CliOptionsView {
    CliOptionsView {
        project_path: None,
        enable_export_ast: false,
        enable_ansi_color: false,
        enable_info_progress: false,
        enable_info_ignore: false,
        enable_info_file: false,
    }
}

impl Default for CliOptions {
    fn default() -> (r: Self)
        ensures
            r@ == default_options(),
    {
        CliOptions {
            project_path: None,
            enable_export_ast: false,
            enable_ansi_color: false,
            enable_info_progress: false,
            enable_info_ignore: false,
            enable_info_file: false,
        }
    }
}

impl CliOptions {
    /// Whether a project path was given.
    pub fn is_exists_project_path(&self) -> (r: bool)
        ensures
            r == self.project_path is Some,
    {
        self.project_path.is_some()
    }

    /// The project path.
    pub fn project_path(&self) -> (r: String)
        requires
            self.project_path is Some,
        ensures
            r@ == self.project_path.unwrap()@,
    {
        match &self.project_path {
            Some(p) => p.clone(),
            None => unreached(),
        }
    }

    /// Whether the abstract syntax tree is exported.
    pub fn enable_export_ast(&self) -> (r: bool)
        ensures
            r == self.enable_export_ast,
    {
        self.enable_export_ast
    }

    /// Whether output is coloured with ANSI escape sequences.
    pub fn enable_ansi_color(&self) -> (r: bool)
        ensures
            r == self.enable_ansi_color,
    {
        self.enable_ansi_color
    }

    /// Whether the progress of a build is shown.
    pub fn enable_info_progress(&self) -> (r: bool)
        ensures
            r == self.enable_info_progress,
    {
        self.enable_info_progress
    }

    /// Whether the ignore rules are shown.
    pub fn enable_info_ignore(&self) -> (r: bool)
        ensures
            r == self.enable_info_ignore,
    {
        self.enable_info_ignore
    }

    /// Whether details of the analysis of each file are shown.
    pub fn enable_info_file(&self) -> (r: bool)
        ensures
            r == self.enable_info_file,
    {
        self.enable_info_file
    }
}

} // verus!
