//! The tree of ignore rules that a build shows on request.
use vstd::prelude::*;
use crate::ansi::ansi::Ansi;
use crate::ansi::io::AddAnsi;
use crate::context::module::ModuleContext;
use crate::context::project::ProjectContext;
use crate::extension::{occurs_at, occurs_in, string_views};
use crate::text::push_str;

verus! {

pub const TITLE: &'static str = "忽略规则:\n";
pub const BRANCH: &'static str = "├─";
pub const LAST_BRANCH: &'static str = "└─";
pub const RAIL: &'static str = "│";
pub const NO_RAIL: &'static str = " ";
pub const GAP: &'static str = "   ";
pub const SPACE: &'static str = " ";
pub const NEWLINE: &'static str = "\n";

/// The branch that leads to an item: `└─` for the last one, `├─` otherwise.
pub open spec fn branch(last: bool) -> Seq<char> {
    if last {
        LAST_BRANCH@
    } else {
        BRANCH@
    }
}

/// The rail beside the items below an item: none below the last one, `│`
/// otherwise.
pub open spec fn rail(last: bool) -> Seq<char> {
    if last {
        NO_RAIL@
    } else {
        RAIL@
    }
}

/// The line of one rule.
pub open spec fn ignore_line(ignore: Seq<char>, plast: bool, mlast: bool, ilast: bool) -> Seq<char> {
    Ansi::Cyan.escape() + rail(plast) + GAP@ + rail(mlast) + GAP@ + branch(ilast)
        + Ansi::BrightBlue.escape() + SPACE@ + ignore + NEWLINE@
}

/// The lines of the rules `ignores[..n]`.
pub open spec fn ignore_lines(ignores: Seq<Seq<char>>, plast: bool, mlast: bool, n: int) -> Seq<char>
    decreases n,
{
    if n <= 0 {
        Seq::empty()
    } else {
        ignore_lines(ignores, plast, mlast, n - 1) + ignore_line(
            ignores[n - 1],
            plast,
            mlast,
            n - 1 == ignores.len() - 1,
        )
    }
}

/// The lines of a module: its name, then its rules.
pub open spec fn module_lines(m: ModuleContext, plast: bool, mlast: bool) -> Seq<char> {
    let ignores = string_views(m.ignore_rules.unwrap().ignores@);
    Ansi::BrightCyan.escape() + rail(plast) + GAP@ + branch(mlast) + Ansi::BrightWhite.escape()
        + SPACE@ + m.module.unwrap().name@ + NEWLINE@ + ignore_lines(
        ignores,
        plast,
        mlast,
        ignores.len() as int,
    )
}

/// The lines of the modules `modules[..n]`.
pub open spec fn modules_lines(modules: Seq<ModuleContext>, plast: bool, n: int) -> Seq<char>
    decreases n,
{
    if n <= 0 {
        Seq::empty()
    } else {
        modules_lines(modules, plast, n - 1) + module_lines(
            modules[n - 1],
            plast,
            n - 1 == modules.len() - 1,
        )
    }
}

/// The lines of a project: its name, then its modules.
pub open spec fn project_lines(p: ProjectContext, plast: bool) -> Seq<char> {
    let modules = p.children.unwrap()@;
    Ansi::BrightCyan.escape() + branch(plast) + Ansi::BrightWhite.escape() + SPACE@
        + p.project.unwrap().name@ + NEWLINE@ + modules_lines(modules, plast, modules.len() as int)
}

/// The lines of the projects `projects[..n]`.
pub open spec fn projects_lines(projects: Seq<ProjectContext>, n: int) -> Seq<char>
    decreases n,
{
    if n <= 0 {
        Seq::empty()
    } else {
        projects_lines(projects, n - 1) + project_lines(projects[n - 1], n - 1 == projects.len() - 1)
    }
}

/// The report of the ignore rules of every module of every project, drawn as
/// a tree.
pub open spec fn ignore_report(projects: Seq<ProjectContext>) -> Seq<char> {
    Ansi::BrightWhite.escape() + TITLE@ + projects_lines(projects, projects.len() as int)
}

/// The module has the attachments the report reads.
pub open spec fn module_reportable(m: ModuleContext) -> bool {
    m.module is Some && m.ignore_rules is Some
}

/// The project has the attachment and children the report reads.
pub open spec fn project_reportable(p: ProjectContext) -> bool {
    &&& p.project is Some
    &&& p.children is Some
    &&& forall|j: int|
        0 <= j < p.children.unwrap()@.len() ==> module_reportable(#[trigger] p.children.unwrap()@[j])
}

fn push_branch(msg: &mut String, last: bool)
    ensures
        final(msg)@ == old(msg)@ + branch(last),
{
    if last {
        push_str(msg, LAST_BRANCH);
    } else {
        push_str(msg, BRANCH);
    }
}

fn push_rail(msg: &mut String, last: bool)
    ensures
        final(msg)@ == old(msg)@ + rail(last),
{
    if last {
        push_str(msg, NO_RAIL);
    } else {
        push_str(msg, RAIL);
    }
}

fn ignore_line_text(ignore: &str, plast: bool, mlast: bool, ilast: bool) -> (r: String)
    ensures
        r@ == ignore_line(ignore@, plast, mlast, ilast),
{
    let mut line = String::new();
    line.push_ansi(Ansi::Cyan);
    push_rail(&mut line, plast);
    push_str(&mut line, GAP);
    push_rail(&mut line, mlast);
    push_str(&mut line, GAP);
    push_branch(&mut line, ilast);
    line.push_ansi(Ansi::BrightBlue);
    push_str(&mut line, SPACE);
    push_str(&mut line, ignore);
    push_str(&mut line, NEWLINE);
    line
}

#[verifier::rlimit(30)]
fn push_module_lines(msg: &mut String, m: &ModuleContext, plast: bool, mlast: bool)
    requires
        module_reportable(*m),
    ensures
        final(msg)@ == old(msg)@ + module_lines(*m, plast, mlast),
{
    let ghost start = msg@;
    msg.push_ansi(Ansi::BrightCyan);
    push_rail(msg, plast);
    push_str(msg, GAP);
    push_branch(msg, mlast);
    msg.push_ansi(Ansi::BrightWhite);
    push_str(msg, SPACE);
    let name = match &m.module {
        Some(a) => &a.name,
        None => unreached(),
    };
    push_str(msg, name.as_str());
    push_str(msg, NEWLINE);
    let ignores = match &m.ignore_rules {
        Some(a) => &a.ignores,
        None => unreached(),
    };
    let ghost igs = string_views(ignores@);
    let ghost head = msg@;
    let n = ignores.len();
    let mut i: usize = 0;
    while i < n
        invariant
            i <= n == ignores@.len(),
            igs == string_views(ignores@),
            msg@ == head + ignore_lines(igs, plast, mlast, i as int),
        decreases n - i,
    {
        let line = ignore_line_text(ignores[i].as_str(), plast, mlast, i + 1 == n);
        let ghost before = msg@;
        push_str(msg, line.as_str());
        proof {
            assert(igs[i as int] == ignores@[i as int]@);
            assert(ignore_lines(igs, plast, mlast, i + 1) == ignore_lines(igs, plast, mlast, i as int)
                + line@);
            assert(msg@ =~= head + ignore_lines(igs, plast, mlast, i + 1));
        }
        i = i + 1;
    }
}

fn push_project_lines(msg: &mut String, p: &ProjectContext, plast: bool)
    requires
        project_reportable(*p),
    ensures
        final(msg)@ == old(msg)@ + project_lines(*p, plast),
{
    msg.push_ansi(Ansi::BrightCyan);
    push_branch(msg, plast);
    msg.push_ansi(Ansi::BrightWhite);
    push_str(msg, SPACE);
    let name = match &p.project {
        Some(a) => &a.name,
        None => unreached(),
    };
    push_str(msg, name.as_str());
    push_str(msg, NEWLINE);
    let modules = match &p.children {
        Some(c) => c,
        None => unreached(),
    };
    let ghost head = msg@;
    let n = modules.len();
    let mut j: usize = 0;
    while j < n
        invariant
            j <= n == modules@.len(),
            p.children == Some(*modules),
            project_reportable(*p),
            msg@ == head + modules_lines(modules@, plast, j as int),
        decreases n - j,
    {
        assert(p.children.unwrap()@[j as int] == modules@[j as int]);
        assert(module_reportable(modules@[j as int]));
        let ghost before = msg@;
        push_module_lines(msg, &modules[j], plast, j + 1 == n);
        proof {
            assert(msg@ =~= head + modules_lines(modules@, plast, j + 1));
        }
        j = j + 1;
    }
}

/// The report of the ignore rules of every module of every project.
pub fn ignore_rules_message(projects: &Vec<ProjectContext>) -> (r: String)
    requires
        forall|i: int| 0 <= i < projects@.len() ==> project_reportable(#[trigger] projects@[i]),
    ensures
        r@ == ignore_report(projects@),
{
    let mut msg = String::new();
    msg.push_ansi(Ansi::BrightWhite);
    push_str(&mut msg, TITLE);
    let ghost head = msg@;
    let n = projects.len();
    let mut i: usize = 0;
    while i < n
        invariant
            i <= n == projects@.len(),
            forall|k: int| 0 <= k < projects@.len() ==> project_reportable(#[trigger] projects@[k]),
            msg@ == head + projects_lines(projects@, i as int),
        decreases n - i,
    {
        push_project_lines(&mut msg, &projects[i], i + 1 == n);
        proof {
            assert(msg@ =~= head + projects_lines(projects@, i + 1));
        }
        i = i + 1;
    }
    msg
}

/// `x` occurs in `a`, so it occurs in `a + b`.
proof fn lemma_occurs_left(a: Seq<char>, b: Seq<char>, x: Seq<char>)
    requires
        occurs_in(a, x),
    ensures
        occurs_in(a + b, x),
{
    let j = choose|j: int| #[trigger] occurs_at(a, x, j);
    assert((a + b).subrange(j, j + x.len()) =~= a.subrange(j, j + x.len()));
    assert(occurs_at(a + b, x, j));
}

/// `x` occurs in `b`, so it occurs in `a + b`.
proof fn lemma_occurs_right(a: Seq<char>, b: Seq<char>, x: Seq<char>)
    requires
        occurs_in(b, x),
    ensures
        occurs_in(a + b, x),
{
    let j = choose|j: int| #[trigger] occurs_at(b, x, j);
    let k = a.len() + j;
    assert((a + b).subrange(k, k + x.len()) =~= b.subrange(j, j + x.len()));
    assert(occurs_at(a + b, x, k));
}

/// `x` occurs in itself.
proof fn lemma_occurs_self(x: Seq<char>)
    ensures
        occurs_in(x, x),
{
    assert(x.subrange(0, x.len() as int) =~= x);
    assert(occurs_at(x, x, 0));
}

/// What occurs in a part of `a` occurs in `a`.
proof fn lemma_occurs_trans(a: Seq<char>, b: Seq<char>, x: Seq<char>)
    requires
        occurs_in(a, b),
        occurs_in(b, x),
    ensures
        occurs_in(a, x),
{
    let j = choose|j: int| #[trigger] occurs_at(a, b, j);
    let k = choose|k: int| #[trigger] occurs_at(b, x, k);
    assert(a.subrange(j + k, j + k + x.len()) =~= b.subrange(k, k + x.len()));
    assert(occurs_at(a, x, j + k));
}

/// The line of the rule `ignores[r]` is among the lines of `ignores[..n]`.
proof fn lemma_rule_line_in_lines(ignores: Seq<Seq<char>>, plast: bool, mlast: bool, n: int, r: int)
    requires
        0 <= r < n,
    ensures
        occurs_in(
            ignore_lines(ignores, plast, mlast, n),
            ignore_line(ignores[r], plast, mlast, r == ignores.len() - 1),
        ),
    decreases n,
{
    let line = ignore_line(ignores[r], plast, mlast, r == ignores.len() - 1);
    if r == n - 1 {
        lemma_occurs_self(line);
        lemma_occurs_right(ignore_lines(ignores, plast, mlast, n - 1), line, line);
    } else {
        lemma_rule_line_in_lines(ignores, plast, mlast, n - 1, r);
        lemma_occurs_left(
            ignore_lines(ignores, plast, mlast, n - 1),
            ignore_line(ignores[n - 1], plast, mlast, n - 1 == ignores.len() - 1),
            line,
        );
    }
}

/// The lines of the module `modules[i]` are among the lines of `modules[..n]`.
proof fn lemma_module_in_modules(modules: Seq<ModuleContext>, plast: bool, n: int, i: int)
    requires
        0 <= i < n,
    ensures
        occurs_in(
            modules_lines(modules, plast, n),
            module_lines(modules[i], plast, i == modules.len() - 1),
        ),
    decreases n,
{
    let lines = module_lines(modules[i], plast, i == modules.len() - 1);
    if i == n - 1 {
        lemma_occurs_self(lines);
        lemma_occurs_right(modules_lines(modules, plast, n - 1), lines, lines);
    } else {
        lemma_module_in_modules(modules, plast, n - 1, i);
        lemma_occurs_left(
            modules_lines(modules, plast, n - 1),
            module_lines(modules[n - 1], plast, n - 1 == modules.len() - 1),
            lines,
        );
    }
}

/// The lines of the project `projects[j]` are among the lines of
/// `projects[..n]`.
proof fn lemma_project_in_projects(projects: Seq<ProjectContext>, n: int, j: int)
    requires
        0 <= j < n,
    ensures
        occurs_in(projects_lines(projects, n), project_lines(projects[j], j == projects.len() - 1)),
    decreases n,
{
    let lines = project_lines(projects[j], j == projects.len() - 1);
    if j == n - 1 {
        lemma_occurs_self(lines);
        lemma_occurs_right(projects_lines(projects, n - 1), lines, lines);
    } else {
        lemma_project_in_projects(projects, n - 1, j);
        lemma_occurs_left(
            projects_lines(projects, n - 1),
            project_lines(projects[n - 1], n - 1 == projects.len() - 1),
            lines,
        );
    }
}

/// The report draws every rule of every module of every project on a line
/// of its own: in cyan, the project column holds the rail `│` unless the
/// project is the last one, the module column holds `│` unless the module is
/// the last of its project (so the rules of a module hang from its project's
/// line of modules), then `└─` before the last rule of the module and `├─`
/// before any other, and in bright blue the rule as written.
pub proof fn lemma_report_draws_rule_lines(projects: Seq<ProjectContext>, j: int, i: int, r: int)
    requires
        0 <= j < projects.len(),
        project_reportable(projects[j]),
        0 <= i < projects[j].children.unwrap()@.len(),
        0 <= r < projects[j].children.unwrap()@[i].ignore_rules.unwrap().ignores@.len(),
    ensures
        ({
            let modules = projects[j].children.unwrap()@;
            let ignores = modules[i].ignore_rules.unwrap().ignores@;
            let column = |last: bool| if last { seq![' '] } else { seq!['│'] };
            let line = Ansi::Cyan.escape() + column(j == projects.len() - 1) + seq![' ', ' ', ' ']
                + column(i == modules.len() - 1) + seq![' ', ' ', ' '] + (if r == ignores.len() - 1 {
                seq!['└', '─']
            } else {
                seq!['├', '─']
            }) + Ansi::BrightBlue.escape() + seq![' '] + ignores[r]@ + seq!['\n'];
            occurs_in(ignore_report(projects), line)
        }),
{
    reveal_strlit("│");
    reveal_strlit(" ");
    reveal_strlit("   ");
    reveal_strlit("├─");
    reveal_strlit("└─");
    reveal_strlit("\n");
    let plast = j == projects.len() - 1;
    let p = projects[j];
    let modules = p.children.unwrap()@;
    let mlast = i == modules.len() - 1;
    let m = modules[i];
    let igs = string_views(m.ignore_rules.unwrap().ignores@);
    let rlast = r == igs.len() - 1;
    let line = ignore_line(igs[r], plast, mlast, rlast);
    lemma_rule_line_in_lines(igs, plast, mlast, igs.len() as int, r);
    let head_m = Ansi::BrightCyan.escape() + rail(plast) + GAP@ + branch(mlast)
        + Ansi::BrightWhite.escape() + SPACE@ + m.module.unwrap().name@ + NEWLINE@;
    assert(module_lines(m, plast, mlast) == head_m + ignore_lines(igs, plast, mlast, igs.len() as int));
    lemma_occurs_right(head_m, ignore_lines(igs, plast, mlast, igs.len() as int), line);
    lemma_module_in_modules(modules, plast, modules.len() as int, i);
    lemma_occurs_trans(modules_lines(modules, plast, modules.len() as int), module_lines(m, plast, mlast), line);
    let head_p = Ansi::BrightCyan.escape() + branch(plast) + Ansi::BrightWhite.escape() + SPACE@
        + p.project.unwrap().name@ + NEWLINE@;
    assert(project_lines(p, plast) == head_p + modules_lines(modules, plast, modules.len() as int));
    lemma_occurs_right(head_p, modules_lines(modules, plast, modules.len() as int), line);
    lemma_project_in_projects(projects, projects.len() as int, j);
    lemma_occurs_trans(projects_lines(projects, projects.len() as int), project_lines(p, plast), line);
    lemma_occurs_right(
        Ansi::BrightWhite.escape() + TITLE@,
        projects_lines(projects, projects.len() as int),
        line,
    );
    let column = |last: bool| if last { seq![' '] } else { seq!['│'] };
    assert(RAIL@ =~= seq!['│']);
    assert(NO_RAIL@ =~= seq![' ']);
    assert(GAP@ =~= seq![' ', ' ', ' ']);
    assert(SPACE@ =~= seq![' ']);
    assert(NEWLINE@ =~= seq!['\n']);
    assert(BRANCH@ =~= seq!['├', '─']);
    assert(LAST_BRANCH@ =~= seq!['└', '─']);
    assert(rail(plast) == column(plast));
    assert(rail(mlast) == column(mlast));
    assert(igs[r] == m.ignore_rules.unwrap().ignores@[r]@);
}

} // verus!
