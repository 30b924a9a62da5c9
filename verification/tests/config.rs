use puzzle::config::toml::module::{Module as ModuleSection, ModuleToml};
use puzzle::config::toml::project::{Dep, Module, Project, ProjectToml};
use puzzle::driver::validate::{validate_module_toml, validate_project_toml};
use puzzle::error::PzlError;
use puzzle::location::SourcePosition;

fn s(x: &str) -> String {
    x.to_string()
}

fn project_toml(name: Option<&str>, version: Option<&str>, entry: Option<&str>, modules: Option<Vec<&str>>) -> ProjectToml {
    ProjectToml {
        project: Some(Project { version: version.map(s), name: name.map(s), entry: entry.map(s) }),
        modules: modules.map(|ms| ms.into_iter().map(|m| (s(m), Module { path: Some(s(m)) })).collect()),
        deps: None,
    }
}

fn project_error(toml: &ProjectToml, is_root: bool) -> PzlError {
    validate_project_toml(toml, &s("/w/demo"), &s("/w/demo/puzzle.toml"), "demo", is_root).unwrap_err()
}

#[test]
fn valid_project_toml_passes() {
    let toml = project_toml(Some("demo"), Some("1.0.0"), Some("app"), Some(vec!["app", "lib"]));
    assert!(validate_project_toml(&toml, &s("/w/demo"), &s("/w/demo/puzzle.toml"), "demo", true).is_ok());
    let dep = project_toml(Some("dep"), Some("0.1.0"), None, Some(vec!["core"]));
    assert!(validate_project_toml(&dep, &s("/w/dep"), &s("/w/dep/puzzle.toml"), "dep", false).is_ok());
}

#[test]
fn subject_is_quoted_in_debug_notation() {
    let toml = ProjectToml { project: None, modules: None, deps: None };
    let e = validate_project_toml(&toml, &s("/w/x"), &s("/w/x/puzzle.toml"), "a\"b", true).unwrap_err();
    assert_eq!(e.msg, r#""a\"b" 项目的 "puzzle.toml" 配置文件中缺少 [project] 表"#);
}

#[test]
fn project_table_missing() {
    let toml = ProjectToml { project: None, modules: None, deps: None };
    let e = project_error(&toml, true);
    assert_eq!(e.kind, "配置");
    assert_eq!(e.path, Some(s("/w/demo/puzzle.toml")));
    assert_eq!(e.msg, r#""demo" 项目的 "puzzle.toml" 配置文件中缺少 [project] 表"#);
}

#[test]
fn project_name_missing_is_reported_against_the_project() {
    let e = project_error(&project_toml(None, Some("1.0.0"), Some("app"), Some(vec!["app"])), true);
    assert_eq!(e.path, Some(s("/w/demo")));
    assert_eq!(e.msg, r#""demo" 项目的 "puzzle.toml" 配置文件中 [project] 表缺少必要属性 "name""#);
}

#[test]
fn project_name_breaks_pattern() {
    let e = project_error(&project_toml(Some("Demo"), Some("1.0.0"), Some("app"), Some(vec!["app"])), true);
    assert_eq!(e.path, Some(s("/w/demo/puzzle.toml")));
    assert_eq!(
        e.msg,
        r#""demo" 项目的 "puzzle.toml" 配置文件中 [project] 表的 "name" 属性违反模式: "^[a-z][a-z0-9-]*$""#
    );
}

#[test]
fn project_version_missing_or_wrong() {
    let e = project_error(&project_toml(Some("demo"), None, Some("app"), Some(vec!["app"])), true);
    assert_eq!(e.msg, r#""demo" 项目的 "puzzle.toml" 配置文件中 [project] 表中缺少必要属性 "version""#);
    let e = project_error(&project_toml(Some("demo"), Some("1.0"), Some("app"), Some(vec!["app"])), true);
    assert_eq!(
        e.msg,
        r#""demo" 项目的 "puzzle.toml" 配置文件中 [project] 表的 "version" 属性违反模式: "^\\d+\\.\\d+\\.\\d+$""#
    );
}

#[test]
fn project_modules_missing_or_empty() {
    let e = project_error(&project_toml(Some("demo"), Some("1.0.0"), Some("app"), None), true);
    assert_eq!(e.msg, r#""demo" 项目的 "puzzle.toml" 配置文件中缺少 [modules] 表"#);
    let e = project_error(&project_toml(Some("demo"), Some("1.0.0"), Some("app"), Some(vec![])), true);
    assert_eq!(e.msg, r#""demo" 项目的 "puzzle.toml" 配置文件中 [modules] 表中至少需要配置一个模块"#);
}

#[test]
fn root_project_entry_missing_or_unknown() {
    let e = project_error(&project_toml(Some("demo"), Some("1.0.0"), None, Some(vec!["app"])), true);
    assert_eq!(e.msg, r#""demo" 主项目的 "puzzle.toml" 配置文件中 [project] 表中缺少必要属性 "entry""#);
    let e = project_error(&project_toml(Some("demo"), Some("1.0.0"), Some("web"), Some(vec!["app"])), true);
    assert_eq!(e.msg, r#""demo" 项目的 "puzzle.toml" 配置文件中 [project] 的 "entry" 属性必须在 [modules] 表中选择"#);
    // a dependence needs no entry
    let ok = project_toml(Some("demo"), Some("1.0.0"), Some("web"), Some(vec!["app"]));
    assert!(validate_project_toml(&ok, &s("/w/demo"), &s("/w/demo/puzzle.toml"), "demo", false).is_ok());
}

#[test]
fn first_failed_check_is_reported() {
    // both the name and the version are wrong: the name is reported
    let e = project_error(&project_toml(Some("Demo"), Some("x"), None, None), true);
    assert!(e.msg.contains(r#""name" 属性违反模式"#));
}

fn module_toml(name: Option<&str>, version: Option<&str>, group: Option<&str>) -> ModuleToml {
    ModuleToml {
        module: Some(ModuleSection {
            version: version.map(s),
            name: name.map(s),
            group: group.map(s),
            ignores: Some(vec![s("a/*")]),
            deps: None,
        }),
    }
}

fn module_error(toml: ModuleToml) -> PzlError {
    let project = project_toml(Some("demo"), Some("1.2.3"), Some("app"), Some(vec!["app"]));
    validate_module_toml(toml, &s("/w/demo/app/puzzle.toml"), "app", &project).unwrap_err()
}

#[test]
fn module_without_version_takes_the_project_version() {
    let project = project_toml(Some("demo"), Some("1.2.3"), Some("app"), Some(vec!["app"]));
    let t = validate_module_toml(module_toml(Some("app"), None, Some("com.demo")), &s("/t"), "app", &project)
        .unwrap();
    let m = t.module.unwrap();
    assert_eq!(m.version, Some(s("1.2.3")));
    assert_eq!(m.name, Some(s("app")));
    assert_eq!(m.group, Some(s("com.demo")));
    assert_eq!(m.ignores, Some(vec![s("a/*")]));
    let t = validate_module_toml(module_toml(Some("app"), Some("0.0.9"), Some("com")), &s("/t"), "app", &project)
        .unwrap();
    assert_eq!(t.module.unwrap().version, Some(s("0.0.9")));
}

#[test]
fn module_with_own_version_needs_no_project_table() {
    let bare = ProjectToml { project: None, modules: None, deps: None };
    let t = validate_module_toml(module_toml(Some("app"), Some("0.0.9"), Some("com")), &s("/t"), "app", &bare)
        .unwrap();
    assert_eq!(t.module.unwrap().version, Some(s("0.0.9")));
    let e = validate_module_toml(module_toml(None, None, Some("com")), &s("/t"), "app", &bare).unwrap_err();
    assert_eq!(e.msg, r#""app" 模块的 "puzzle.toml" 配置文件中 [module] 表中缺少必要属性 "name""#);
}

#[test]
fn module_errors() {
    let e = module_error(ModuleToml { module: None });
    assert_eq!(e.path, Some(s("/w/demo/app/puzzle.toml")));
    assert_eq!(e.msg, r#""app" 模块的 "puzzle.toml" 配置文件中缺少 [module] 表"#);
    let e = module_error(module_toml(None, None, Some("com")));
    assert_eq!(e.msg, r#""app" 模块的 "puzzle.toml" 配置文件中 [module] 表中缺少必要属性 "name""#);
    let e = module_error(module_toml(Some("App"), None, Some("com")));
    assert_eq!(e.msg, r#""app" 模块的 "puzzle.toml" 配置文件中 [module] 表的 "name" 属性违反模式: "^[a-z][a-z0-9-]*$""#);
    let e = module_error(module_toml(Some("app"), Some("1"), Some("com")));
    assert_eq!(
        e.msg,
        r#""app" 模块的 "puzzle.toml" 配置文件中 [module] 表的 "version" 属性违反模式: "^\\d+\\.\\d+\\.\\d+$""#
    );
    let e = module_error(module_toml(Some("app"), None, None));
    assert_eq!(e.msg, r#""app" 模块的 "puzzle.toml" 配置文件中 [module] 表中缺少必要属性 "group""#);
    let e = module_error(module_toml(Some("app"), None, Some("com.")));
    assert_eq!(
        e.msg,
        r#""app" 模块的 "puzzle.toml" 配置文件中 [module] 表的 "group" 属性违反模式: "^[a-z][a-z0-9]*(?:\\.[a-z][a-z0-9]*)*$""#
    );
}

#[test]
fn error_report_line() {
    let toml = ProjectToml { project: None, modules: None, deps: None };
    let e = project_error(&toml, true);
    assert_eq!(
        e.message(),
        "\x1b[31m[配置错误] \"demo\" 项目的 \"puzzle.toml\" 配置文件中缺少 [project] 表\n位置: puzzle.toml\x1b[0m"
    );
    let at = PzlError {
        kind: s("语法"),
        path: Some(s("/w/demo/app/src/main.pzl")),
        position: Some(SourcePosition { line: 12, column: 7 }),
        msg: s("x"),
    };
    assert_eq!(at.message(), "\x1b[31m[语法错误] x\n位置: main.pzl:12:7\x1b[0m");
    let nowhere = PzlError { kind: s("命令"), path: None, position: Some(SourcePosition { line: 1, column: 1 }), msg: s("y") };
    assert_eq!(nowhere.message(), "\x1b[31m[命令错误] y\x1b[0m");
}

#[test]
fn dep_tables_are_plain_values() {
    let d = Dep { path: Some(s("../lib")), module: Some(s("core")) };
    assert_eq!(d.path.as_deref(), Some("../lib"));
    assert_eq!(d.module.as_deref(), Some("core"));
}
