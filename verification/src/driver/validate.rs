//! The checks that a project's and a module's `puzzle.toml` must pass.
use vstd::prelude::*;
use crate::config::toml::module::ModuleToml;
use crate::config::toml::project::{has_key, ProjectToml};
use crate::driver::error::{config_error, config_error_value};
use crate::error::{PzlError, PzlErrorView};
use crate::pattern::{
    is_valid_group, is_valid_name, is_valid_version, valid_group, valid_name, valid_version,
};
use crate::text::{debug_quoted, debug_str, push_str, str_eq};

verus! {

/// The pattern that project and module names follow.
pub const NAME_PATTERN: &'static str = r"^[a-z][a-z0-9-]*$";

/// The pattern that versions follow.
pub const VERSION_PATTERN: &'static str = r"^\d+\.\d+\.\d+$";

/// The pattern that module groups follow.
pub const GROUP_PATTERN: &'static str = r"^[a-z][a-z0-9]*(?:\.[a-z][a-z0-9]*)*$";

/// The pattern that ignore rules follow.
pub const IGNORE_PATTERN: &'static str = r"^(?:[a-z][a-z0-9]*/)*(?:\*\*|\*|[a-zA-Z][a-zA-Z0-9]*\.pzl)$";

pub const MSG_NO_PROJECT_TABLE: &'static str = r#" 项目的 "puzzle.toml" 配置文件中缺少 [project] 表"#;
pub const MSG_NO_PROJECT_NAME: &'static str = r#" 项目的 "puzzle.toml" 配置文件中 [project] 表缺少必要属性 "name""#;
pub const MSG_BAD_PROJECT_NAME: &'static str = r#" 项目的 "puzzle.toml" 配置文件中 [project] 表的 "name" 属性违反模式: "#;
pub const MSG_NO_PROJECT_VERSION: &'static str = r#" 项目的 "puzzle.toml" 配置文件中 [project] 表中缺少必要属性 "version""#;
pub const MSG_BAD_PROJECT_VERSION: &'static str = r#" 项目的 "puzzle.toml" 配置文件中 [project] 表的 "version" 属性违反模式: "#;
pub const MSG_NO_MODULES_TABLE: &'static str = r#" 项目的 "puzzle.toml" 配置文件中缺少 [modules] 表"#;
pub const MSG_EMPTY_MODULES_TABLE: &'static str = r#" 项目的 "puzzle.toml" 配置文件中 [modules] 表中至少需要配置一个模块"#;
pub const MSG_NO_ENTRY: &'static str = r#" 主项目的 "puzzle.toml" 配置文件中 [project] 表中缺少必要属性 "entry""#;
pub const MSG_UNKNOWN_ENTRY: &'static str = r#" 项目的 "puzzle.toml" 配置文件中 [project] 的 "entry" 属性必须在 [modules] 表中选择"#;

pub const MSG_NO_MODULE_TABLE: &'static str = r#" 模块的 "puzzle.toml" 配置文件中缺少 [module] 表"#;
pub const MSG_NO_MODULE_NAME: &'static str = r#" 模块的 "puzzle.toml" 配置文件中 [module] 表中缺少必要属性 "name""#;
pub const MSG_BAD_MODULE_NAME: &'static str = r#" 模块的 "puzzle.toml" 配置文件中 [module] 表的 "name" 属性违反模式: "#;
pub const MSG_BAD_MODULE_VERSION: &'static str = r#" 模块的 "puzzle.toml" 配置文件中 [module] 表的 "version" 属性违反模式: "#;
pub const MSG_NO_MODULE_GROUP: &'static str = r#" 模块的 "puzzle.toml" 配置文件中 [module] 表中缺少必要属性 "group""#;
pub const MSG_BAD_MODULE_GROUP: &'static str = r#" 模块的 "puzzle.toml" 配置文件中 [module] 表的 "group" 属性违反模式: "#;

/// A message about `subject`: its `Debug` notation, then `tail`.
pub open spec fn subject_text(subject: Seq<char>, tail: Seq<char>) -> Seq<char> {
    debug_quoted(subject) + tail
}

/// A message about `subject` breaking `pattern`.
pub open spec fn pattern_text(subject: Seq<char>, tail: Seq<char>, pattern: Seq<char>) -> Seq<char> {
    debug_quoted(subject) + tail + debug_quoted(pattern)
}

fn subject_message(subject: &str, tail: &str) -> (r: String)
    ensures
        r@ == subject_text(subject@, tail@),
{
    let mut r = debug_str(subject);
    push_str(&mut r, tail);
    r
}

fn pattern_message(subject: &str, tail: &str, pattern: &str) -> (r: String)
    ensures
        r@ == pattern_text(subject@, tail@, pattern@),
{
    let mut r = debug_str(subject);
    push_str(&mut r, tail);
    let p = debug_str(pattern);
    push_str(&mut r, p.as_str());
    r
}

/// A project's `puzzle.toml` is valid: it has a `[project]` table with a
/// well-formed name and version and a non-empty `[modules]` table; the
/// `puzzle.toml` of the root project also names one of its modules as `entry`.
pub open spec fn project_toml_valid(toml: &ProjectToml, is_root: bool) -> bool {
    &&& toml.project is Some
    &&& toml.project.unwrap().name matches Some(n) && valid_name(n@)
    &&& toml.project.unwrap().version matches Some(v) && valid_version(v@)
    &&& toml.modules matches Some(ms) && ms@.len() > 0
    &&& is_root ==> (toml.project.unwrap().entry matches Some(e) && has_key(
        toml.modules.unwrap()@,
        e@,
    ))
}

/// The first check that a project's `puzzle.toml` fails, with the error that
/// reports it; `None` where it passes them all.
pub open spec fn project_toml_error(
    toml: &ProjectToml,
    project_path: Seq<char>,
    toml_path: Seq<char>,
    name: Seq<char>,
    is_root: bool,
) -> Option<PzlErrorView> {
    match toml.project {
        None => Some(config_error_value(toml_path, subject_text(name, MSG_NO_PROJECT_TABLE@))),
        Some(p) => if p.name is None {
            Some(config_error_value(project_path, subject_text(name, MSG_NO_PROJECT_NAME@)))
        } else if !valid_name(p.name.unwrap()@) {
            Some(
                config_error_value(
                    toml_path,
                    pattern_text(name, MSG_BAD_PROJECT_NAME@, NAME_PATTERN@),
                ),
            )
        } else if p.version is None {
            Some(config_error_value(toml_path, subject_text(name, MSG_NO_PROJECT_VERSION@)))
        } else if !valid_version(p.version.unwrap()@) {
            Some(
                config_error_value(
                    toml_path,
                    pattern_text(name, MSG_BAD_PROJECT_VERSION@, VERSION_PATTERN@),
                ),
            )
        } else if toml.modules is None {
            Some(config_error_value(toml_path, subject_text(name, MSG_NO_MODULES_TABLE@)))
        } else if toml.modules.unwrap()@.len() == 0 {
            Some(config_error_value(toml_path, subject_text(name, MSG_EMPTY_MODULES_TABLE@)))
        } else if is_root && p.entry is None {
            Some(config_error_value(toml_path, subject_text(name, MSG_NO_ENTRY@)))
        } else if is_root && !has_key(toml.modules.unwrap()@, p.entry.unwrap()@) {
            Some(config_error_value(toml_path, subject_text(name, MSG_UNKNOWN_ENTRY@)))
        } else {
            None
        },
    }
}

/// Whether `key` names an entry of `entries`.
fn contains_key<T>(entries: &Vec<(String, T)>, key: &String) -> (r: bool)
    ensures
        r == has_key(entries@, key@),
{
    let mut i: usize = 0;
    while i < entries.len()
        invariant
            i <= entries.len(),
            forall|j: int| 0 <= j < i ==> entries@[j].0@ != key@,
        decreases entries.len() - i,
    {
        if str_eq(entries[i].0.as_str(), key.as_str()) {
            return true;
        }
        i = i + 1;
    }
    false
}

/// Checks the `puzzle.toml` of the project `project_name` found at
/// `project_path`; the root project must also name its entry module.
pub fn validate_project_toml(
    toml: &ProjectToml,
    project_path: &String,
    toml_path: &String,
    project_name: &str,
    is_root: bool,
) -> (r: Result<(), PzlError>)
    ensures
        r is Ok <==> project_toml_valid(toml, is_root),
        match r {
            Ok(_) => project_toml_error(toml, project_path@, toml_path@, project_name@, is_root)
                is None,
            Err(e) => project_toml_error(toml, project_path@, toml_path@, project_name@, is_root)
                == Some(e@),
        },
{
    let project = match &toml.project {
        None => {
            return Err(
                config_error(toml_path, subject_message(project_name, MSG_NO_PROJECT_TABLE).as_str()),
            );
        },
        Some(p) => p,
    };
    match &project.name {
        None => {
            return Err(
                config_error(project_path, subject_message(project_name, MSG_NO_PROJECT_NAME).as_str()),
            );
        },
        Some(name) => {
            if !is_valid_name(name.as_str()) {
                return Err(
                    config_error(
                        toml_path,
                        pattern_message(project_name, MSG_BAD_PROJECT_NAME, NAME_PATTERN).as_str(),
                    ),
                );
            }
        },
    }
    match &project.version {
        None => {
            return Err(
                config_error(
                    toml_path,
                    subject_message(project_name, MSG_NO_PROJECT_VERSION).as_str(),
                ),
            );
        },
        Some(version) => {
            if !is_valid_version(version.as_str()) {
                return Err(
                    config_error(
                        toml_path,
                        pattern_message(
                            project_name,
                            MSG_BAD_PROJECT_VERSION,
                            VERSION_PATTERN,
                        ).as_str(),
                    ),
                );
            }
        },
    }
    let modules = match &toml.modules {
        None => {
            return Err(
                config_error(toml_path, subject_message(project_name, MSG_NO_MODULES_TABLE).as_str()),
            );
        },
        Some(m) => m,
    };
    if modules.len() == 0 {
        return Err(
            config_error(
                toml_path,
                subject_message(project_name, MSG_EMPTY_MODULES_TABLE).as_str(),
            ),
        );
    }
    if is_root {
        match &project.entry {
            None => {
                return Err(
                    config_error(toml_path, subject_message(project_name, MSG_NO_ENTRY).as_str()),
                );
            },
            Some(entry) => {
                if !contains_key(modules, entry) {
                    return Err(
                        config_error(
                            toml_path,
                            subject_message(project_name, MSG_UNKNOWN_ENTRY).as_str(),
                        ),
                    );
                }
            },
        }
    }
    Ok(())
}

/// A module's `puzzle.toml` is valid: it has a `[module]` table with a
/// well-formed name and group, and a well-formed version where it gives one.
pub open spec fn module_toml_valid(toml: &ModuleToml) -> bool {
    &&& toml.module is Some
    &&& toml.module.unwrap().name matches Some(n) && valid_name(n@)
    &&& toml.module.unwrap().version matches Some(v) ==> valid_version(v@)
    &&& toml.module.unwrap().group matches Some(g) && valid_group(g@)
}

/// The first check that a module's `puzzle.toml` fails, with the error that
/// reports it; `None` where it passes them all.
pub open spec fn module_toml_error(
    toml: &ModuleToml,
    toml_path: Seq<char>,
    name: Seq<char>,
) -> Option<PzlErrorView> {
    match toml.module {
        None => Some(config_error_value(toml_path, subject_text(name, MSG_NO_MODULE_TABLE@))),
        Some(m) => if m.name is None {
            Some(config_error_value(toml_path, subject_text(name, MSG_NO_MODULE_NAME@)))
        } else if !valid_name(m.name.unwrap()@) {
            Some(
                config_error_value(
                    toml_path,
                    pattern_text(name, MSG_BAD_MODULE_NAME@, NAME_PATTERN@),
                ),
            )
        } else if m.version matches Some(v) && !valid_version(v@) {
            Some(
                config_error_value(
                    toml_path,
                    pattern_text(name, MSG_BAD_MODULE_VERSION@, VERSION_PATTERN@),
                ),
            )
        } else if m.group is None {
            Some(config_error_value(toml_path, subject_text(name, MSG_NO_MODULE_GROUP@)))
        } else if !valid_group(m.group.unwrap()@) {
            Some(
                config_error_value(
                    toml_path,
                    pattern_text(name, MSG_BAD_MODULE_GROUP@, GROUP_PATTERN@),
                ),
            )
        } else {
            None
        },
    }
}

/// Checks the `puzzle.toml` of the module `module_name` of the project whose
/// `puzzle.toml` is `project_toml`; a module without a version takes the
/// project's version.
pub fn validate_module_toml(
    toml: ModuleToml,
    toml_path: &String,
    module_name: &str,
    project_toml: &ProjectToml,
) -> (r: Result<ModuleToml, PzlError>)
    requires
        toml.module matches Some(m) && m.name matches Some(n) && valid_name(n@) && m.version is None
            ==> project_toml.project is Some,
    ensures
        r is Ok <==> module_toml_valid(&toml),
        match r {
            Ok(t) => {
                &&& module_toml_error(&toml, toml_path@, module_name@) is None
                &&& t.module is Some
                &&& t.module.unwrap().name == toml.module.unwrap().name
                &&& t.module.unwrap().group == toml.module.unwrap().group
                &&& t.module.unwrap().ignores == toml.module.unwrap().ignores
                &&& t.module.unwrap().deps == toml.module.unwrap().deps
                &&& t.module.unwrap().version == if toml.module.unwrap().version is None {
                    project_toml.project.unwrap().version
                } else {
                    toml.module.unwrap().version
                }
            },
            Err(e) => module_toml_error(&toml, toml_path@, module_name@) == Some(e@),
        },
{
    let ghost old_toml = toml;
    let mut toml = toml;
    let mut module = match toml.module {
        None => {
            return Err(
                config_error(toml_path, subject_message(module_name, MSG_NO_MODULE_TABLE).as_str()),
            );
        },
        Some(m) => m,
    };
    match &module.name {
        None => {
            return Err(
                config_error(toml_path, subject_message(module_name, MSG_NO_MODULE_NAME).as_str()),
            );
        },
        Some(name) => {
            if !is_valid_name(name.as_str()) {
                return Err(
                    config_error(
                        toml_path,
                        pattern_message(module_name, MSG_BAD_MODULE_NAME, NAME_PATTERN).as_str(),
                    ),
                );
            }
        },
    }
    match &module.version {
        None => {
            module.version = match &project_toml.project {
                Some(p) => p.version.clone(),
                None => None,
            };
        },
        Some(version) => {
            if !is_valid_version(version.as_str()) {
                return Err(
                    config_error(
                        toml_path,
                        pattern_message(
                            module_name,
                            MSG_BAD_MODULE_VERSION,
                            VERSION_PATTERN,
                        ).as_str(),
                    ),
                );
            }
        },
    }
    match &module.group {
        None => {
            return Err(
                config_error(toml_path, subject_message(module_name, MSG_NO_MODULE_GROUP).as_str()),
            );
        },
        Some(group) => {
            if !is_valid_group(group.as_str()) {
                return Err(
                    config_error(
                        toml_path,
                        pattern_message(module_name, MSG_BAD_MODULE_GROUP, GROUP_PATTERN).as_str(),
                    ),
                );
            }
        },
    }
    toml.module = Some(module);
    Ok(toml)
}

/// A project's `puzzle.toml` passes the checks exactly when its `[project]`
/// table has a name made of a lowercase letter followed by lowercase letters,
/// digits and `-`, a version of three runs of digits joined by dots, its
/// `[modules]` table has an entry, and, for the root project, `entry` is the
/// key of one of those entries; the checks report no error exactly then.
pub proof fn lemma_project_toml_accepted(
    toml: &ProjectToml,
    project_path: Seq<char>,
    toml_path: Seq<char>,
    name: Seq<char>,
    is_root: bool,
)
    ensures
        project_toml_error(toml, project_path, toml_path, name, is_root) is None
            <==> project_toml_valid(toml, is_root),
        project_toml_valid(toml, is_root) <==> {
            &&& toml.project matches Some(p)
            &&& p.name matches Some(n) && n@.len() > 0 && 'a' <= n@[0] <= 'z' && forall|i: int|
                0 <= i < n@.len() ==> ('a' <= #[trigger] n@[i] <= 'z' || '0' <= n@[i] <= '9' || n@[i]
                    == '-')
            &&& p.version matches Some(v) && valid_version(v@)
            &&& toml.modules matches Some(ms) && ms@.len() > 0
            &&& is_root ==> (p.entry matches Some(e) && exists|i: int|
                0 <= i < toml.modules.unwrap()@.len() && (#[trigger] toml.modules.unwrap()@[i]).0@ == e@)
        },
{
}

/// A module's `puzzle.toml` passes the checks exactly when its `[module]`
/// table has a name made of a lowercase letter followed by lowercase letters,
/// digits and `-`, a group of dot-separated identifiers, and, where it gives
/// one, a version of three runs of digits joined by dots; the checks report
/// no error exactly then.
pub proof fn lemma_module_toml_accepted(toml: &ModuleToml, toml_path: Seq<char>, name: Seq<char>)
    ensures
        module_toml_error(toml, toml_path, name) is None <==> module_toml_valid(toml),
        module_toml_valid(toml) <==> {
            &&& toml.module matches Some(m)
            &&& m.name matches Some(n) && n@.len() > 0 && 'a' <= n@[0] <= 'z' && forall|i: int|
                0 <= i < n@.len() ==> ('a' <= #[trigger] n@[i] <= 'z' || '0' <= n@[i] <= '9' || n@[i]
                    == '-')
            &&& m.version matches Some(v) ==> valid_version(v@)
            &&& m.group matches Some(g) && valid_group(g@)
        },
{
}

} // verus!
