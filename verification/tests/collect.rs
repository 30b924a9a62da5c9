use puzzle::config::ignore::{IgnoreKind, IgnoreRule};
use puzzle::config::toml::module::{Module as ModuleSection, ModuleToml};
use puzzle::config::toml::project::{Dep, Module, Project, ProjectToml};
use puzzle::context::module::ModuleContext;
use puzzle::context::project::ProjectContext;
use puzzle::driver::collect::{
    all_file_paths, calc_max_path_length, get_file_context, get_module_context,
    ignore_rules_attachment, to_ignore_rules,
};
use puzzle::driver::locate::{
    bin_file_name, dependence_path, get_project_context, locate_dependence, resolve_module_path,
    modified_marker_name, module_cache_name, project_cache_name, require_module_toml,
    require_project_toml, require_source_dir,
};
use puzzle::driver::report::ignore_rules_message;
use puzzle::driver::sources::{collect_all_source_paths, SourceEntry};

fn s(x: &str) -> String {
    x.to_string()
}

fn rule(path: &str, kind: IgnoreKind, ignore: &str) -> IgnoreRule {
    IgnoreRule { path: s(path), kind, ignore: s(ignore) }
}

#[test]
fn ignore_rules_are_classified() {
    let rules = to_ignore_rules(
        &s("/m/src"),
        &s("/m/puzzle.toml"),
        "app",
        vec![s("**"), s("*"), s("a/b/**"), s("a/*"), s("a/Main.pzl")],
    )
    .unwrap();
    let got: Vec<(String, IgnoreKind, String)> =
        rules.into_iter().map(|r| (r.path, r.kind, r.ignore)).collect();
    assert_eq!(
        got,
        vec![
            (s("/m/src"), IgnoreKind::Recursive, s("**")),
            (s("/m/src"), IgnoreKind::Children, s("*")),
            (s("/m/src/a/b"), IgnoreKind::Recursive, s("a/b/**")),
            (s("/m/src/a"), IgnoreKind::Children, s("a/*")),
            (s("/m/src/a/Main.pzl"), IgnoreKind::File, s("a/Main.pzl")),
        ]
    );
}

#[test]
fn first_bad_ignore_rule_is_reported_with_its_index() {
    let e = to_ignore_rules(&s("/m/src"), &s("/m/puzzle.toml"), "app", vec![s("a/*"), s("bad/"), s("B/")])
        .unwrap_err();
    assert_eq!(e.kind, "配置");
    assert_eq!(e.path, Some(s("/m/puzzle.toml")));
    assert_eq!(
        e.msg,
        r#""app" 模块的 "puzzle.toml" 配置文件中 [module] 表的 "ignores[1]" 属性违反模式: "^(?:[a-z][a-z0-9]*/)*(?:\\*\\*|\\*|[a-zA-Z][a-zA-Z0-9]*\\.pzl)$""#
    );
}

#[test]
fn rules_are_sorted_for_lookup() {
    let a = ignore_rules_attachment(vec![
        rule("/s/a.pzl", IgnoreKind::File, "a.pzl"),
        rule("/s/d", IgnoreKind::Children, "d/*"),
        rule("/s/a.pzl", IgnoreKind::File, "a.pzl"),
        rule("/s/e", IgnoreKind::Recursive, "e/**"),
    ]);
    assert_eq!(a.ignores, vec![s("a.pzl"), s("d/*"), s("a.pzl"), s("e/**")]);
    assert_eq!(a.file_paths, vec![s("/s/a.pzl")]);
    let dirs: Vec<(String, IgnoreKind)> = a.dir_rules.iter().map(|r| (r.path.clone(), r.kind)).collect();
    assert_eq!(dirs, vec![(s("/s/d"), IgnoreKind::Children), (s("/s/e"), IgnoreKind::Recursive)]);
}

fn file(p: &str) -> SourceEntry {
    SourceEntry::File { path: s(p) }
}

fn dir(p: &str, entries: Vec<SourceEntry>) -> SourceEntry {
    SourceEntry::Dir { path: s(p), entries }
}

fn tree() -> SourceEntry {
    dir(
        "/m/src",
        vec![
            file("/m/src/main.pzl"),
            file("/m/src/notes.txt"),
            file("/m/src/skip.pzl"),
            dir("/m/src/a", vec![file("/m/src/a/x.pzl"), dir("/m/src/a/deep", vec![file("/m/src/a/deep/y.pzl")])]),
            dir("/m/src/b", vec![file("/m/src/b/z.pzl")]),
            SourceEntry::Other { path: s("/m/src/fifo") },
        ],
    )
}

#[test]
fn sources_without_rules() {
    let a = ignore_rules_attachment(vec![]);
    assert_eq!(
        collect_all_source_paths(&tree(), &a),
        vec![s("/m/src/main.pzl"), s("/m/src/skip.pzl"), s("/m/src/a/x.pzl"), s("/m/src/a/deep/y.pzl"), s("/m/src/b/z.pzl")]
    );
}

#[test]
fn ignored_sources_are_left_out() {
    let a = ignore_rules_attachment(vec![
        rule("/m/src/skip.pzl", IgnoreKind::File, "skip.pzl"),
        rule("/m/src/a", IgnoreKind::Children, "a/*"),
        rule("/m/src/b", IgnoreKind::Recursive, "b/**"),
    ]);
    assert_eq!(collect_all_source_paths(&tree(), &a), vec![s("/m/src/main.pzl"), s("/m/src/a/deep/y.pzl")]);
    let all = ignore_rules_attachment(vec![rule("/m/src", IgnoreKind::Recursive, "**")]);
    assert!(collect_all_source_paths(&tree(), &all).is_empty());
    let top = ignore_rules_attachment(vec![rule("/m/src", IgnoreKind::Children, "*")]);
    assert_eq!(
        collect_all_source_paths(&tree(), &top),
        vec![s("/m/src/a/x.pzl"), s("/m/src/a/deep/y.pzl"), s("/m/src/b/z.pzl")]
    );
}

fn module_toml(ignores: Option<Vec<&str>>) -> ModuleToml {
    ModuleToml {
        module: Some(ModuleSection {
            version: Some(s("1.0.0")),
            name: Some(s("app")),
            group: Some(s("com.demo")),
            ignores: ignores.map(|v| v.into_iter().map(s).collect()),
            deps: None,
        }),
    }
}

#[test]
fn module_context_is_built() {
    let ctx = get_module_context(&s("/m"), &s("/m/puzzle.toml"), module_toml(Some(vec!["b/**", "skip.pzl"])), "app", &tree())
        .unwrap();
    let m = ctx.module.as_ref().unwrap();
    assert_eq!(m.name, "app");
    assert_eq!(m.group, vec![s("com"), s("demo")]);
    let rules = ctx.ignore_rules.as_ref().unwrap();
    assert_eq!(rules.ignores, vec![s("b/**"), s("skip.pzl")]);
    assert_eq!(rules.file_paths, vec![s("/m/src/skip.pzl")]);
    assert!(ctx.dependences.is_none());
    let files: Vec<(String, String, bool)> = ctx
        .children
        .as_ref()
        .unwrap()
        .iter()
        .map(|f| {
            let a = f.file.as_ref().unwrap();
            (a.name.clone(), a.path.clone(), a.builtin || a.line_starts.is_some())
        })
        .collect();
    assert_eq!(
        files,
        vec![
            (s("main.pzl"), s("/m/src/main.pzl"), false),
            (s("x.pzl"), s("/m/src/a/x.pzl"), false),
            (s("y.pzl"), s("/m/src/a/deep/y.pzl"), false),
        ]
    );
}

#[test]
fn module_context_reports_a_bad_rule() {
    let e = get_module_context(&s("/m"), &s("/m/puzzle.toml"), module_toml(Some(vec!["ok/*", "x"])), "app", &tree())
        .unwrap_err();
    assert!(e.msg.contains("\"ignores[1]\""));
    let ok = get_module_context(&s("/m"), &s("/m/puzzle.toml"), module_toml(None), "app", &tree()).unwrap();
    assert_eq!(ok.children.unwrap().len(), 5);
}

#[test]
fn file_context_of_a_path() {
    let f = get_file_context(s("/m/src/a/x.pzl"));
    let a = f.file.unwrap();
    assert_eq!(a.name, "x.pzl");
    assert_eq!(a.path, "/m/src/a/x.pzl");
    assert!(!a.builtin);
    assert!(a.line_starts.is_none());
}

fn project(name: &str, modules: Vec<ModuleContext>) -> ProjectContext {
    let toml = ProjectToml {
        project: Some(Project { version: Some(s("1.0.0")), name: Some(s(name)), entry: None }),
        modules: None,
        deps: None,
    };
    get_project_context(&toml, &s(&format!("/w/{}", name)), modules)
}

fn module(ignores: Vec<&str>) -> ModuleContext {
    get_module_context(&s("/m"), &s("/m/puzzle.toml"), module_toml(Some(ignores)), "app", &tree()).unwrap()
}

#[test]
fn project_context_holds_its_modules() {
    let p = project("demo", vec![module(vec![])]);
    let a = p.project.as_ref().unwrap();
    assert_eq!(a.name, "demo");
    assert_eq!(a.path, "/w/demo");
    assert_eq!(p.children.as_ref().unwrap().len(), 1);
}

#[test]
fn ignore_rules_report() {
    let projects = vec![project("dep", vec![module(vec!["a/*"])]), project("demo", vec![module(vec![]), module(vec!["b/**", "skip.pzl"])])];
    let expected = String::new()
        + "\x1b[97m忽略规则:\n"
        + "\x1b[96m├─\x1b[97m dep\n"
        + "\x1b[96m│   └─\x1b[97m app\n"
        + "\x1b[36m│       └─\x1b[94m a/*\n"
        + "\x1b[96m└─\x1b[97m demo\n"
        + "\x1b[96m    ├─\x1b[97m app\n"
        + "\x1b[96m    └─\x1b[97m app\n"
        + "\x1b[36m        ├─\x1b[94m b/**\n"
        + "\x1b[36m        └─\x1b[94m skip.pzl\n";
    assert_eq!(ignore_rules_message(&projects), expected);
}

#[test]
fn longest_path_in_bytes() {
    assert_eq!(calc_max_path_length(&vec![]), 0);
    assert_eq!(calc_max_path_length(&vec![s("/a"), s("/bcd"), s("/x")]), 4);
    // non-ASCII characters count by their UTF-8 bytes
    assert_eq!(calc_max_path_length(&vec![s("/abcd"), s("/模块")]), 7);
}

#[test]
fn file_paths_of_all_projects() {
    let projects = vec![project("dep", vec![module(vec!["**"])]), project("demo", vec![module(vec!["a/*", "b/**"])])];
    assert_eq!(all_file_paths(&projects), vec![s("/m/src/main.pzl"), s("/m/src/skip.pzl"), s("/m/src/a/deep/y.pzl")]);
}

#[test]
fn dependences_are_located() {
    let toml_path = s("/w/demo/puzzle.toml");
    assert_eq!(dependence_path(&toml_path, &Dep { path: Some(s("../lib")), module: None }).unwrap(), "../lib");
    let e = dependence_path(&toml_path, &Dep { path: None, module: None }).unwrap_err();
    assert_eq!((e.kind.as_str(), e.path, e.msg.as_str()), ("配置", Some(toml_path.clone()), ""));

    let dir = s("/w/demo");
    assert_eq!(locate_dependence(&dir, "lib", &s("/w/lib"), true, true).unwrap(), "/w/lib");
    assert_eq!(locate_dependence(&dir, "lib", &s("lib"), false, true).unwrap(), "/w/demo/lib");
    let e = locate_dependence(&dir, "lib", &s("lib"), false, false).unwrap_err();
    assert_eq!(e.path, Some(dir.clone()));
    assert_eq!(e.msg, r#"""lib"" 依赖的项目不存在"#);
}

#[test]
fn modules_are_located() {
    let dir = s("/w/demo");
    let toml = s("/w/demo/puzzle.toml");
    let abs = Module { path: Some(s("/w/mods/app")) };
    assert_eq!(resolve_module_path(&dir, &toml, "demo", "app", &abs, true, false).unwrap(), (s("/w/mods/app"), false));
    let rel = Module { path: Some(s("app")) };
    // a relative path is looked for under the project even where it exists as written
    assert_eq!(resolve_module_path(&dir, &toml, "demo", "app", &rel, true, true).unwrap(), (s("/w/demo/app"), true));
    let e = resolve_module_path(&dir, &toml, "demo", "app", &rel, true, false).unwrap_err();
    assert_eq!(e.path, Some(toml.clone()));
    assert_eq!(e.msg, r#""demo" 项目的 "puzzle.toml" 配置文件中 [modules] 的 "app" 属性配置的 "path" 路径不存在"#);
}

#[test]
fn cache_file_names() {
    assert_eq!(project_cache_name("demo"), "project:demo");
    assert_eq!(module_cache_name("demo", "app"), "module:demo:app");
    assert_eq!(modified_marker_name("project:demo", "1700000000000"), "project:demo:1700000000000");
    assert_eq!(bin_file_name("module:demo:app"), "module:demo:app.bin");
}

#[test]
fn more_rules_never_add_a_source() {
    let few = ignore_rules_attachment(vec![rule("/m/src/skip.pzl", IgnoreKind::File, "skip.pzl")]);
    let more = ignore_rules_attachment(vec![
        rule("/m/src/skip.pzl", IgnoreKind::File, "skip.pzl"),
        rule("/m/src/main.pzl", IgnoreKind::File, "main.pzl"),
        rule("/m/src/a", IgnoreKind::Children, "a/*"),
    ]);
    let with_few = collect_all_source_paths(&tree(), &few);
    let with_more = collect_all_source_paths(&tree(), &more);
    assert!(with_more.iter().all(|p| with_few.contains(p)));
    assert_eq!(with_more, vec![s("/m/src/a/deep/y.pzl"), s("/m/src/b/z.pzl")]);
}

#[test]
fn missing_configuration_files_are_reported() {
    assert!(require_project_toml(&s("/w/p"), true).is_ok());
    let e = require_project_toml(&s("/w/p"), false).unwrap_err();
    assert_eq!((e.kind.as_str(), e.path, e.msg.as_str()), ("配置", Some(s("/w/p")), "puzzle.toml 项目配置文件缺失"));
    assert!(require_module_toml(&s("/w/p/m"), true).is_ok());
    let e = require_module_toml(&s("/w/p/m"), false).unwrap_err();
    assert_eq!((e.path, e.msg.as_str()), (Some(s("/w/p/m")), "puzzle.toml 模块配置文件缺失"));
    assert!(require_source_dir(&s("/w/p/m"), true).is_ok());
    let e = require_source_dir(&s("/w/p/m"), false).unwrap_err();
    assert_eq!((e.path, e.msg.as_str()), (Some(s("/w/p/m")), "源目录不存在"));
}

fn node(path: &str, deps: Vec<puzzle::driver::projects::ProjectNode>) -> puzzle::driver::projects::ProjectNode {
    puzzle::driver::projects::ProjectNode {
        path: s(path),
        toml_path: format!("{}/puzzle.toml", path),
        toml: ProjectToml { project: None, modules: None, deps: None },
        deps,
    }
}

#[test]
fn dependencies_come_before_their_dependents() {
    let root = node("/w/app", vec![node("/w/a", vec![node("/w/c", vec![])]), node("/w/b", vec![])]);
    let order = puzzle::driver::projects::dependencies_first(root);
    let paths: Vec<&str> = order.iter().map(|p| p.path.as_str()).collect();
    assert_eq!(paths, vec!["/w/c", "/w/a", "/w/b", "/w/app"]);
    assert_eq!(order[3].toml_path, "/w/app/puzzle.toml");
}
