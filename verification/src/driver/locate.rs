//! Where the projects and modules of a build lie, and where their cached
//! configuration is kept.
use vstd::prelude::*;
use crate::config::toml::project::{Dep, Module, ProjectToml};
use crate::context::context::{Context, HasChildren};
use crate::context::module::ModuleContext;
use crate::context::project::{ProjectAttachment, ProjectContext};
use crate::driver::error::{config_error, config_error_value};
use crate::driver::validate::subject_text;
use crate::error::PzlError;
use crate::extension::{is_absolute_path, join_path, path_is_absolute, path_join};
use crate::text::{concat, debug_quoted, debug_str, push_char, push_str};

verus! {

pub const MSG_MISSING_DEPENDENCE: &'static str = r#"" 依赖的项目不存在"#;
pub const MSG_MISSING_MODULE_DIR_HEAD: &'static str = r#" 项目的 "puzzle.toml" 配置文件中 [modules] 的 "#;
pub const MSG_MISSING_MODULE_DIR_TAIL: &'static str = r#" 属性配置的 "path" 路径不存在"#;
pub const MSG_MISSING_PROJECT_TOML: &'static str = "puzzle.toml 项目配置文件缺失";
pub const MSG_MISSING_MODULE_TOML: &'static str = "puzzle.toml 模块配置文件缺失";
pub const MSG_MISSING_SOURCE_DIR: &'static str = "源目录不存在";
pub const PROJECT_CACHE_PREFIX: &'static str = "project:";
pub const MODULE_CACHE_PREFIX: &'static str = "module:";
pub const CACHE_SEPARATOR: &'static str = ":";
pub const BIN_SUFFIX: &'static str = ".bin";

/// A project needs its `puzzle.toml`: where there is no such file
/// (`toml_is_file` tells), that is reported against the project at
/// `project_dir`.
pub fn require_project_toml(project_dir: &String, toml_is_file: bool) -> (r: Result<(), PzlError>)
    ensures
        r is Ok <==> toml_is_file,
        r matches Err(e) ==> e@ == config_error_value(project_dir@, MSG_MISSING_PROJECT_TOML@),
{
    if toml_is_file {
        Ok(())
    } else {
        Err(config_error(project_dir, MSG_MISSING_PROJECT_TOML))
    }
}

/// A module needs its `puzzle.toml`: where there is no such file
/// (`toml_is_file` tells), that is reported against the module at
/// `module_dir`.
pub fn require_module_toml(module_dir: &String, toml_is_file: bool) -> (r: Result<(), PzlError>)
    ensures
        r is Ok <==> toml_is_file,
        r matches Err(e) ==> e@ == config_error_value(module_dir@, MSG_MISSING_MODULE_TOML@),
{
    if toml_is_file {
        Ok(())
    } else {
        Err(config_error(module_dir, MSG_MISSING_MODULE_TOML))
    }
}

/// A module needs its source directory `src`: where there is no such
/// directory (`source_is_dir` tells), that is reported against the module at
/// `module_dir`.
pub fn require_source_dir(module_dir: &String, source_is_dir: bool) -> (r: Result<(), PzlError>)
    ensures
        r is Ok <==> source_is_dir,
        r matches Err(e) ==> e@ == config_error_value(module_dir@, MSG_MISSING_SOURCE_DIR@),
{
    if source_is_dir {
        Ok(())
    } else {
        Err(config_error(module_dir, MSG_MISSING_SOURCE_DIR))
    }
}

/// The path that the dependence `dep` is written with; a dependence without
/// one is reported, with an empty message, against the `puzzle.toml` at
/// `toml_path`.
pub fn dependence_path(toml_path: &String, dep: &Dep) -> (r: Result<String, PzlError>)
    ensures
        match r {
            Ok(p) => dep.path matches Some(w) && p@ == w@,
            Err(e) => dep.path is None && e@ == config_error_value(toml_path@, ""@),
        },
{
    match &dep.path {
        Some(p) => Ok(p.clone()),
        None => Err(config_error(toml_path, "")),
    }
}

/// The message for the dependence `name` that lies nowhere.
pub open spec fn missing_dependence_text(name: Seq<char>) -> Seq<char> {
    seq!['"'] + debug_quoted(name) + MSG_MISSING_DEPENDENCE@
}

/// Where the project that the dependence `name` of the project at
/// `project_dir` names lies: at the path `written` as written where that is a
/// directory, else at that path under `project_dir` where that is one
/// (`written_is_dir` and `joined_is_dir` tell); else the dependence is reported
/// against the project.
pub fn locate_dependence(
    project_dir: &String,
    name: &str,
    written: &String,
    written_is_dir: bool,
    joined_is_dir: bool,
) -> (r: Result<String, PzlError>)
    ensures
        match r {
            Ok(p) => if written_is_dir {
                p@ == written@
            } else {
                joined_is_dir && p@ == path_join(project_dir@, written@)
            },
            Err(e) => !written_is_dir && !joined_is_dir && e@ == config_error_value(
                project_dir@,
                missing_dependence_text(name@),
            ),
        },
{
    if written_is_dir {
        Ok(written.clone())
    } else if joined_is_dir {
        Ok(join_path(project_dir.as_str(), written.as_str()))
    } else {
        let mut msg = String::new();
        push_char(&mut msg, '"');
        let q = debug_str(name);
        push_str(&mut msg, q.as_str());
        push_str(&mut msg, MSG_MISSING_DEPENDENCE);
        Err(config_error(project_dir, msg.as_str()))
    }
}

/// The message for the module `module_name` of the project `project_name`
/// whose path lies nowhere.
pub open spec fn missing_module_dir_text(project_name: Seq<char>, module_name: Seq<char>) -> Seq<
    char,
> {
    debug_quoted(project_name) + MSG_MISSING_MODULE_DIR_HEAD@ + debug_quoted(module_name)
        + MSG_MISSING_MODULE_DIR_TAIL@
}

/// Where the module `module_name` of the project `project_name` at
/// `project_dir` lies, and whether that path is still to be made canonical:
/// at its path as written where that is an absolute path of a directory
/// (`written_is_dir` tells whether it is a directory), else at that path under
/// `project_dir` where that is a directory (`joined_is_dir`); else the module
/// is reported against the project's `puzzle.toml` at `toml_path`.
pub fn resolve_module_path(
    project_dir: &String,
    toml_path: &String,
    project_name: &str,
    module_name: &str,
    module: &Module,
    written_is_dir: bool,
    joined_is_dir: bool,
) -> (r: Result<(String, bool), PzlError>)
    requires
        module.path is Some,
    ensures
        ({
            let w = module.path.unwrap()@;
            match r {
                Ok((p, canonicalize)) => if written_is_dir && path_is_absolute(w) {
                    p@ == w && !canonicalize
                } else {
                    joined_is_dir && p@ == path_join(project_dir@, w) && canonicalize
                },
                Err(e) => !(written_is_dir && path_is_absolute(w)) && !joined_is_dir && e@
                    == config_error_value(toml_path@, missing_module_dir_text(project_name@, module_name@)),
            }
        }),
{
    let written = match &module.path {
        Some(p) => p,
        None => unreached(),
    };
    if written_is_dir && is_absolute_path(written.as_str()) {
        Ok((written.clone(), false))
    } else if joined_is_dir {
        Ok((join_path(project_dir.as_str(), written.as_str()), true))
    } else {
        let mut msg = debug_str(project_name);
        push_str(&mut msg, MSG_MISSING_MODULE_DIR_HEAD);
        let q = debug_str(module_name);
        push_str(&mut msg, q.as_str());
        push_str(&mut msg, MSG_MISSING_MODULE_DIR_TAIL);
        Err(config_error(toml_path, msg.as_str()))
    }
}

/// The context of the project at `path` whose checked `puzzle.toml` holds
/// `toml`, with its modules.
pub fn get_project_context(toml: &ProjectToml, path: &String, modules: Vec<ModuleContext>) -> (r:
    ProjectContext)
    requires
        toml.project matches Some(p) && p.name is Some,
    ensures
        r.project matches Some(a) && a.name@ == toml.project.unwrap().name.unwrap()@ && a.path@
            == path@,
        r.children matches Some(c) && c@ == modules@,
{
    let name = match &toml.project {
        Some(p) => match &p.name {
            Some(n) => n.clone(),
            None => unreached(),
        },
        None => unreached(),
    };
    let mut context = ProjectContext::new();
    context.set(ProjectAttachment { name, path: path.clone() });
    context.set_children(modules);
    context
}

/// The name under which the `puzzle.toml` of the project `project_name` is
/// cached: `project:<name>`.
pub fn project_cache_name(project_name: &str) -> (r: String)
    ensures
        r@ == PROJECT_CACHE_PREFIX@ + project_name@,
{
    concat(PROJECT_CACHE_PREFIX, project_name)
}

/// The name under which the `puzzle.toml` of the module `module_name` of the
/// project `project_name` is cached: `module:<project>:<module>`.
pub fn module_cache_name(project_name: &str, module_name: &str) -> (r: String)
    ensures
        r@ == MODULE_CACHE_PREFIX@ + project_name@ + CACHE_SEPARATOR@ + module_name@,
{
    let mut r = concat(MODULE_CACHE_PREFIX, project_name);
    push_str(&mut r, CACHE_SEPARATOR);
    push_str(&mut r, module_name);
    r
}

/// The name of the file that marks the cache of `name` as made from a
/// `puzzle.toml` last modified at `modified`: `<name>:<modified>`.
pub fn modified_marker_name(name: &str, modified: &str) -> (r: String)
    ensures
        r@ == name@ + CACHE_SEPARATOR@ + modified@,
{
    let mut r = concat(name, CACHE_SEPARATOR);
    push_str(&mut r, modified);
    r
}

/// The name of the file that caches `name`: `<name>.bin`.
pub fn bin_file_name(name: &str) -> (r: String)
    ensures
        r@ == name@ + BIN_SUFFIX@,
{
    concat(name, BIN_SUFFIX)
}

} // verus!
