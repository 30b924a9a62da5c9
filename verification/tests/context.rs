use puzzle::config::dep::{Dependence, DependenceAttachment};
use puzzle::config::ignore::IgnoreRulesAttachment;
use puzzle::context::attachment::{FileAttachment, ModuleAttachment, ProjectAttachment};
use puzzle::context::context::{Context, HasChildren};
use puzzle::context::context_attachment::FileContextAttachment;
use puzzle::context::file::FileContext;
use puzzle::context::module::ModuleContext;
use puzzle::context::project::ProjectContext;
use puzzle::context::root::{RootAttachment, RootContext};
use puzzle::environment::Environment;
use puzzle::location::{SourceLocation, SourcePosition};
use puzzle::time::{measure_time, measure_timed_value};

#[test]
fn get_gives_back_what_set_attached() {
    let mut m = ModuleContext::new();
    m.set(ModuleAttachment { name: "app".to_string(), group: vec!["com".to_string()] });
    m.set(IgnoreRulesAttachment { file_paths: vec![], dir_rules: vec![], ignores: vec!["*".to_string()] });
    m.set(ModuleAttachment { name: "lib".to_string(), group: vec![] });
    let a: &ModuleAttachment = m.get();
    assert_eq!(a.name, "lib");
    let r: &IgnoreRulesAttachment = m.get();
    assert_eq!(r.ignores, vec!["*".to_string()]);
    m.set(DependenceAttachment {
        deps: vec![Dependence { project_name: "dep".to_string(), module_name: "core".to_string() }],
    });
    let d: &DependenceAttachment = m.get();
    assert_eq!(d.deps[0].module_name, "core");
}

#[test]
fn children_are_kept() {
    let mut root = RootContext::default();
    assert!(root.children.is_none());
    let mut p = ProjectContext::new();
    p.set(ProjectAttachment { name: "demo".to_string(), path: "/w/demo".to_string() });
    let mut m = ModuleContext::new();
    let mut f = FileContext::new();
    f.set(FileAttachment { builtin: true, name: "core.pzl".to_string(), path: "<builtin>".to_string(), line_starts: Some(vec![0, 10]) });
    m.set_children(vec![f]);
    p.set_children(vec![m]);
    root.set_children(vec![p]);
    root.set(RootAttachment { max_path_length: 42 });
    let projects = root.get_children();
    assert_eq!(projects.len(), 1);
    let pa: &ProjectAttachment = projects[0].get();
    assert_eq!(pa.name, "demo");
    let files = projects[0].get_children()[0].get_children();
    let fa: &FileAttachment = files[0].get();
    assert_eq!(fa.line_starts, Some(vec![0, 10]));
    let ra: &RootAttachment = root.get();
    assert_eq!(ra.max_path_length, 42);
}

#[test]
fn defaults() {
    let p = ProjectAttachment::default();
    assert!(p.name.is_empty() && p.path.is_empty());
    let m = ModuleAttachment::default();
    assert!(m.name.is_empty() && m.group.is_empty());
    let f = FileContextAttachment::default();
    assert!(!f.builtin && f.line_starts.is_empty());
    let e = Environment::default();
    assert!(e.project_path.is_none() && !e.enable_stack_trace && !e.enable_ansi_color);
}

#[test]
fn positions_and_locations() {
    let p = SourcePosition { line: 3, column: 9 };
    assert_eq!((p.line, p.column), (3, 9));
    assert_eq!(SourceLocation::File { start: 1, end: 5 }, SourceLocation::File { start: 1, end: 5 });
    assert_ne!(SourceLocation::Builtin, SourceLocation::File { start: 0, end: 0 });
}

#[test]
fn timing_keeps_the_value() {
    let t = measure_timed_value(|| 6 * 7);
    assert_eq!(t.value, 42);
    let d = measure_time(|| {});
    assert!(d.as_secs() < 60);
}

#[test]
fn setting_other_attachment_types_keeps_a_module_attachment() {
    let mut m = ModuleContext::new();
    m.set(IgnoreRulesAttachment { file_paths: vec![], dir_rules: vec![], ignores: vec!["a/*".to_string()] });
    m.set(ModuleAttachment { name: "app".to_string(), group: vec![] });
    m.set(DependenceAttachment { deps: vec![] });
    m.set(ModuleAttachment { name: "lib".to_string(), group: vec![] });
    let r: &IgnoreRulesAttachment = m.get();
    assert_eq!(r.ignores, vec!["a/*".to_string()]);
    let a: &ModuleAttachment = m.get();
    assert_eq!(a.name, "lib");
}
