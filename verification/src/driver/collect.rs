//! Gathering the projects, modules and source files of a build.
use vstd::prelude::*;
use vstd::utf8::encode_utf8;
use crate::config::ignore::{
    rule_views, IgnoreKind, IgnoreRule, IgnoreRuleView, IgnoreRulesAttachment,
};
use crate::config::toml::module::{Module as ModuleSection, ModuleToml};
use crate::context::context::Context;
use crate::context::file::{FileAttachment, FileContext};
use crate::context::module::{ModuleAttachment, ModuleContext};
use crate::context::project::ProjectContext;
use crate::driver::error::{config_error, config_error_value};
use crate::driver::sources::{
    collect_all_source_paths, is_source_name, lemma_source_paths_sound, sound_source,
    source_paths, source_tree_wf, SourceEntry,
};
use crate::driver::validate::IGNORE_PATTERN;
use crate::error::PzlError;
use crate::extension::{
    join_path, lemma_split_no_slash, lemma_split_then_piece, path_file_name, path_join,
    skipped_component, split_seq, split_str, string_views, PathBufExt, StringExt,
};
use crate::pattern::{
    ignore_dirs, ignore_split, is_alnum, is_lower, is_valid_ignore, separated_idents,
    source_file_name, valid_ignore,
};
use crate::text::{
    chars_of, debug_quoted, debug_str, decimal, ends_with, push_decimal, push_str, str_eq,
    string_of_chars,
};

verus! {

pub const MSG_BAD_IGNORE_HEAD: &'static str = r#" 模块的 "puzzle.toml" 配置文件中 [module] 表的 "ignores["#;
pub const MSG_BAD_IGNORE_TAIL: &'static str = r#"]" 属性违反模式: "#;

/// What the ignore rule `ignore` of a module whose sources lie in `source`
/// applies to: `**` and `*` to the source directory itself, `d/**` and `d/*`
/// to the directory `d`, anything else to the file it names.
pub open spec fn ignore_target(source: Seq<char>, ignore: Seq<char>) -> (Seq<char>, IgnoreKind) {
    if ignore == seq!['*', '*'] {
        (source, IgnoreKind::Recursive)
    } else if ignore == seq!['*'] {
        (source, IgnoreKind::Children)
    } else if ignore.len() >= 3 && ignore.skip(ignore.len() - 3) == seq!['/', '*', '*'] {
        (path_join(source, ignore.take(ignore.len() - 3)), IgnoreKind::Recursive)
    } else if ignore.len() >= 2 && ignore.skip(ignore.len() - 2) == seq!['/', '*'] {
        (path_join(source, ignore.take(ignore.len() - 2)), IgnoreKind::Children)
    } else {
        (path_join(source, ignore), IgnoreKind::File)
    }
}

/// A file rule can only leave out a source file: the rule as the ignore
/// pattern allows it names a file whose name ends in `.pzl`.
#[verifier::rlimit(30)]
pub proof fn lemma_file_rule_names_source(source: Seq<char>, ignore: Seq<char>)
    requires
        valid_ignore(ignore),
        ignore_target(source, ignore).1 == IgnoreKind::File,
    ensures
        is_source_name(ignore_target(source, ignore).0),
        path_file_name(ignore_target(source, ignore).0) is Some,
{
    let k = choose|k: int| ignore_split(ignore, k);
    let p = ignore.take(k);
    let c = ignore.skip(k);
    assert(ignore =~= p + c);
    // the last part is a file name: `**` and `*` would make the rule one on a directory
    if c == seq!['*', '*'] {
        if k == 0 {
            assert(ignore =~= seq!['*', '*']);
        } else {
            assert(ignore.skip(ignore.len() - 3) =~= seq!['/', '*', '*']);
        }
    }
    if c == seq!['*'] {
        if k == 0 {
            assert(ignore =~= seq!['*']);
        } else {
            assert(ignore.skip(ignore.len() - 2) =~= seq!['/', '*']);
        }
    }
    assert(source_file_name(c));
    assert(!c.contains('/')) by {
        if c.contains('/') {
            let i = choose|i: int| 0 <= i < c.len() && c[i] == '/';
            if i < c.len() - 4 {
                assert(is_alnum(c[i]));
            } else {
                assert(c.subrange(c.len() - 4, c.len() as int)[i - (c.len() - 4)] == c[i]);
            }
        }
    }
    assert(c != seq!['.'] && c != seq!['.', '.']) by {
        if c == seq!['.'] || c == seq!['.', '.'] {
            assert(c.len() < 5);
        }
    }
    // the rule is relative: it begins with a letter
    assert(ignore[0] != '/') by {
        if k == 0 {
            assert(ignore[0] == c[0]);
        } else {
            assert(ignore[0] == p.drop_last()[0]);
        }
    }
    let sep = seq!['/'];
    let joined = path_join(source, ignore);
    let front = if source.len() == 0 || source.last() == '/' {
        source
    } else {
        source.push('/')
    };
    assert(joined =~= front + p + c);
    if p.len() == 0 {
        if front.len() == 0 {
            assert(joined =~= c);
            lemma_split_no_slash(c);
        } else {
            assert(front.last() == '/');
            assert(joined =~= front.drop_last() + sep + c);
            lemma_split_then_piece(front.drop_last(), c);
        }
    } else {
        assert(p.last() == '/');
        assert(joined =~= (front + p.drop_last()) + sep + c);
        lemma_split_then_piece(front + p.drop_last(), c);
    }
    assert(split_seq(joined, sep).last() == c);
    assert(!skipped_component(c));
    assert(path_file_name(joined) == Some(c));
    assert(c.skip(c.len() - 4) =~= c.subrange(c.len() - 4, c.len() as int));
}

/// Joining a directory path `d` onto a path and then `suffix` onto that is
/// joining `d/suffix` at once.
proof fn lemma_join_then(source: Seq<char>, d: Seq<char>, suffix: Seq<char>)
    requires
        d.len() > 0,
        d[0] != '/',
        d.last() != '/',
        suffix.len() > 0,
        suffix[0] != '/',
    ensures
        path_join(path_join(source, d), suffix) == path_join(source, d + seq!['/'] + suffix),
{
    let front = if source.len() == 0 || source.last() == '/' {
        source
    } else {
        source.push('/')
    };
    assert(path_join(source, d) =~= front + d);
    let whole = d + seq!['/'] + suffix;
    assert(whole[0] == d[0]);
    assert(path_join(source, whole) =~= front + whole);
    assert((front + d).last() == d.last());
    assert(path_join(front + d, suffix) =~= (front + d).push('/') + suffix);
    assert((front + d).push('/') + suffix =~= front + whole);
}

/// The directory part `p` (ending in `/`) of an ignore rule is a relative
/// directory path: without its last `/` it is not empty and neither begins
/// nor ends with `/`.
proof fn lemma_ignore_dirs_shape(p: Seq<char>)
    requires
        ignore_dirs(p),
        p.len() > 0,
    ensures
        p.drop_last().len() > 0,
        p.drop_last()[0] != '/',
        p.drop_last().last() != '/',
        p.last() == '/',
{
    let d = p.drop_last();
    assert(separated_idents(d, '/'));
    assert(is_lower(d[0]));
    if d.last() == '/' {
        assert(d[d.len() - 1] == '/');
    }
}

/// What an ignore rule resolves to, by how it ends: a rule ending in `**`
/// leaves out the directory that, joined with `**`, gives the rule under the
/// source directory; a rule ending in a single `*` likewise with `*` (so
/// `a/b/*` is about the directory `a/b`, and `*` about the source directory
/// itself); any other rule is about the file that it names under the source
/// directory.
pub proof fn lemma_ignore_rule_target(source: Seq<char>, ignore: Seq<char>)
    requires
        valid_ignore(ignore),
    ensures
        ({
            let r = rule_view(source, ignore);
            let n = ignore.len() as int;
            &&& n > 0
            &&& r.ignore == ignore
            &&& n >= 2 && ignore[n - 1] == '*' && ignore[n - 2] == '*' ==> r.kind
                == IgnoreKind::Recursive && path_join(r.path, seq!['*', '*']) == path_join(
                source,
                ignore,
            )
            &&& ignore[n - 1] == '*' && !(n >= 2 && ignore[n - 2] == '*') ==> r.kind
                == IgnoreKind::Children && path_join(r.path, seq!['*']) == path_join(source, ignore)
            &&& ignore[n - 1] != '*' ==> r.kind == IgnoreKind::File && r.path == path_join(
                source,
                ignore,
            )
        }),
{
    let k = choose|k: int| ignore_split(ignore, k);
    let p = ignore.take(k);
    let c = ignore.skip(k);
    assert(ignore =~= p + c);
    let n = ignore.len() as int;
    if c == seq!['*', '*'] {
        if k == 0 {
            assert(ignore =~= seq!['*', '*']);
        } else {
            lemma_ignore_dirs_shape(p);
            let d = p.drop_last();
            assert(ignore =~= d + seq!['/'] + seq!['*', '*']);
            assert(ignore.skip(n - 3) =~= seq!['/', '*', '*']);
            assert(ignore.take(n - 3) =~= d);
            assert(ignore != seq!['*', '*'] && ignore != seq!['*']) by {
                assert(n >= 4);
            }
            lemma_join_then(source, d, seq!['*', '*']);
        }
    } else if c == seq!['*'] {
        if k == 0 {
            assert(ignore =~= seq!['*']);
        } else {
            lemma_ignore_dirs_shape(p);
            let d = p.drop_last();
            assert(ignore =~= d + seq!['/'] + seq!['*']);
            assert(ignore.skip(n - 2) =~= seq!['/', '*']);
            assert(ignore.take(n - 2) =~= d);
            assert(ignore[n - 2] == '/');
            assert(ignore != seq!['*', '*'] && ignore != seq!['*']) by {
                assert(n >= 3);
            }
            assert(ignore.skip(n - 3) != seq!['/', '*', '*']) by {
                assert(ignore.skip(n - 3)[1] == ignore[n - 2]);
            }
            lemma_join_then(source, d, seq!['*']);
        }
    } else {
        assert(source_file_name(c));
        assert(c.subrange(c.len() - 4, c.len() as int)[3] == c[c.len() - 1]);
        assert(ignore[n - 1] == c[c.len() - 1]);
        assert(ignore[n - 1] == 'l');
        assert(ignore != seq!['*', '*'] && ignore != seq!['*']) by {
            if ignore == seq!['*', '*'] || ignore == seq!['*'] {
                assert(ignore[n - 1] == '*');
            }
        }
        assert(ignore.skip(n - 3) != seq!['/', '*', '*']) by {
            if n >= 3 {
                assert(ignore.skip(n - 3)[2] == ignore[n - 1]);
            }
        }
        assert(ignore.skip(n - 2) != seq!['/', '*']) by {
            if n >= 2 {
                assert(ignore.skip(n - 2)[1] == ignore[n - 1]);
            }
        }
    }
}

/// The rule made of `ignore` for the sources in `source`.
pub open spec fn rule_view(source: Seq<char>, ignore: Seq<char>) -> IgnoreRuleView {
    IgnoreRuleView {
        path: ignore_target(source, ignore).0,
        kind: ignore_target(source, ignore).1,
        ignore,
    }
}

/// The rules made of `ignores` for the sources in `source`.
pub open spec fn rules_of(source: Seq<char>, ignores: Seq<Seq<char>>) -> Seq<IgnoreRuleView> {
    ignores.map_values(|ig: Seq<char>| rule_view(source, ig))
}

/// The rule made of `ignore` for the sources in `source`.
pub open spec fn rule_matches(rule: IgnoreRule, source: Seq<char>, ignore: Seq<char>) -> bool {
    rule@ == rule_view(source, ignore)
}

/// The message for the ignore rule at `index` breaking the ignore pattern.
pub open spec fn bad_ignore_text(module_name: Seq<char>, index: nat) -> Seq<char> {
    debug_quoted(module_name) + MSG_BAD_IGNORE_HEAD@ + decimal(index) + MSG_BAD_IGNORE_TAIL@
        + debug_quoted(IGNORE_PATTERN@)
}

/// The rule made of `ignore`, which follows the ignore pattern.
fn ignore_rule(source_path: &String, ignore: String) -> (r: IgnoreRule)
    ensures
        rule_matches(r, source_path@, ignore@),
{
    let cs = chars_of(ignore.as_str());
    let n = cs.len();
    proof {
        reveal_strlit("**");
        reveal_strlit("*");
        reveal_strlit("/**");
        reveal_strlit("/*");
        assert("**"@ =~= seq!['*', '*']);
        assert("*"@ =~= seq!['*']);
        assert("/**"@ =~= seq!['/', '*', '*']);
        assert("/*"@ =~= seq!['/', '*']);
    }
    if str_eq(ignore.as_str(), "**") {
        IgnoreRule { path: source_path.clone(), kind: IgnoreKind::Recursive, ignore }
    } else if str_eq(ignore.as_str(), "*") {
        IgnoreRule { path: source_path.clone(), kind: IgnoreKind::Children, ignore }
    } else if ends_with(ignore.as_str(), "/**") {
        let dir = string_of_chars(&cs, 0, n - 3);
        proof {
            assert(cs@.subrange(0, n - 3) =~= ignore@.take(ignore@.len() - 3));
        }
        IgnoreRule { path: join_path(source_path.as_str(), dir.as_str()), kind: IgnoreKind::Recursive, ignore }
    } else if ends_with(ignore.as_str(), "/*") {
        let dir = string_of_chars(&cs, 0, n - 2);
        proof {
            assert(cs@.subrange(0, n - 2) =~= ignore@.take(ignore@.len() - 2));
        }
        IgnoreRule { path: join_path(source_path.as_str(), dir.as_str()), kind: IgnoreKind::Children, ignore }
    } else {
        IgnoreRule { path: join_path(source_path.as_str(), ignore.as_str()), kind: IgnoreKind::File, ignore }
    }
}

/// Turns the `ignores` of the module `module_name`, whose sources lie in
/// `source_path`, into rules; the first one that breaks the ignore pattern is
/// reported against the module's `puzzle.toml` at `toml_path`.
pub fn to_ignore_rules(
    source_path: &String,
    toml_path: &String,
    module_name: &str,
    ignores: Vec<String>,
) -> (r: Result<Vec<IgnoreRule>, PzlError>)
    ensures
        match r {
            Ok(rules) => {
                &&& forall|i: int| 0 <= i < ignores@.len() ==> valid_ignore(#[trigger] ignores@[i]@)
                &&& rule_views(rules@) == rules_of(source_path@, string_views(ignores@))
                &&& rules@.len() == ignores@.len()
                &&& forall|i: int|
                    0 <= i < ignores@.len() ==> rule_matches(
                        #[trigger] rules@[i],
                        source_path@,
                        ignores@[i]@,
                    )
            },
            Err(e) => exists|k: int|
                0 <= k < ignores@.len() && !valid_ignore(#[trigger] ignores@[k]@) && (forall|i: int|
                    0 <= i < k ==> valid_ignore(#[trigger] ignores@[i]@)) && e@ == config_error_value(
                    toml_path@,
                    bad_ignore_text(module_name@, k as nat),
                ),
        },
{
    let mut rules: Vec<IgnoreRule> = Vec::new();
    let mut i: usize = 0;
    while i < ignores.len()
        invariant
            i <= ignores.len(),
            rules@.len() == i,
            forall|j: int| 0 <= j < i ==> valid_ignore(#[trigger] ignores@[j]@),
            forall|j: int|
                0 <= j < i ==> rule_matches(#[trigger] rules@[j], source_path@, ignores@[j]@),
        decreases ignores.len() - i,
    {
        let ignore = ignores[i].clone();
        if !is_valid_ignore(ignore.as_str()) {
            let mut msg = debug_str(module_name);
            push_str(&mut msg, MSG_BAD_IGNORE_HEAD);
            push_decimal(&mut msg, i as u64);
            push_str(&mut msg, MSG_BAD_IGNORE_TAIL);
            let p = debug_str(IGNORE_PATTERN);
            push_str(&mut msg, p.as_str());
            let e = config_error(toml_path, msg.as_str());
            assert(!valid_ignore(ignores@[i as int]@));
            return Err(e);
        }
        let rule = ignore_rule(source_path, ignore);
        rules.push(rule);
        i = i + 1;
    }
    assert(rule_views(rules@) =~= rules_of(source_path@, string_views(ignores@)));
    Ok(rules)
}

/// The rules among `rules[..n]` that are about directories, in order.
pub open spec fn dir_rules_upto(rules: Seq<IgnoreRuleView>, n: int) -> Seq<IgnoreRuleView>
    decreases n,
{
    if n <= 0 {
        Seq::empty()
    } else if rules[n - 1].kind == IgnoreKind::File {
        dir_rules_upto(rules, n - 1)
    } else {
        dir_rules_upto(rules, n - 1).push(rules[n - 1])
    }
}

/// Whether a file rule among `rules[..n]` names the file `path`.
pub open spec fn file_rule_names(rules: Seq<IgnoreRuleView>, n: int, path: Seq<char>) -> bool {
    exists|i: int| 0 <= i < n && rules[i].kind == IgnoreKind::File && #[trigger] rules[i].path == path
}

/// Whether the string `x` occurs in `v`.
pub open spec fn holds_string(v: Seq<String>, x: Seq<char>) -> bool {
    exists|i: int| 0 <= i < v.len() && #[trigger] v[i]@ == x
}

/// Whether the string `x` occurs in `v`.
pub(crate) fn contains_string(v: &Vec<String>, x: &String) -> (r: bool)
    ensures
        r == holds_string(v@, x@),
{
    let mut i: usize = 0;
    while i < v.len()
        invariant
            i <= v.len(),
            forall|j: int| 0 <= j < i ==> v@[j]@ != x@,
        decreases v.len() - i,
    {
        if str_eq(v[i].as_str(), x.as_str()) {
            return true;
        }
        i = i + 1;
    }
    false
}

/// Sorts the rules of a module for lookup: every rule as written, the files
/// named by file rules, and the rules about directories.
pub fn ignore_rules_attachment(rules: Vec<IgnoreRule>) -> (r: IgnoreRulesAttachment)
    ensures
        r.wf(),
        r.ignores@.len() == rules@.len(),
        forall|i: int| 0 <= i < rules@.len() ==> (#[trigger] r.ignores@[i])@ == rules@[i].ignore@,
        rule_views(r.dir_rules@) == dir_rules_upto(rule_views(rules@), rules@.len() as int),
        forall|p: Seq<char>|
            holds_string(r.file_paths@, p) <==> file_rule_names(
                rule_views(rules@),
                rules@.len() as int,
                p,
            ),
{
    let ghost rv = rule_views(rules@);
    let mut file_paths: Vec<String> = Vec::new();
    let mut dir_rules: Vec<IgnoreRule> = Vec::new();
    let mut ignores: Vec<String> = Vec::new();
    let mut i: usize = 0;
    proof {
        assert(rule_views(dir_rules@) =~= Seq::<IgnoreRuleView>::empty());
    }
    while i < rules.len()
        invariant
            i <= rules.len(),
            rv == rule_views(rules@),
            ignores@.len() == i,
            forall|j: int| 0 <= j < i ==> (#[trigger] ignores@[j])@ == rules@[j].ignore@,
            rule_views(dir_rules@) == dir_rules_upto(rv, i as int),
            forall|a: int, b: int|
                0 <= a < b < file_paths@.len() ==> file_paths@[a]@ != file_paths@[b]@,
            forall|p: Seq<char>| holds_string(file_paths@, p) <==> file_rule_names(rv, i as int, p),
            forall|j: int|
                0 <= j < dir_rules@.len() ==> (#[trigger] dir_rules@[j]).kind != IgnoreKind::File,
        decreases rules.len() - i,
    {
        let rule = &rules[i];
        ignores.push(rule.ignore.clone());
        let ghost fp = file_paths@;
        assert(rv[i as int] == rules@[i as int]@);
        if rule.kind == IgnoreKind::File {
            let present = contains_string(&file_paths, &rule.path);
            if !present {
                file_paths.push(rule.path.clone());
            }
            proof {
                let x = rules@[i as int].path@;
                if present {
                    assert(file_paths@ == fp);
                } else {
                    assert(file_paths@ == fp.push(rules@[i as int].path));
                }
                assert forall|p: Seq<char>|
                    holds_string(file_paths@, p) <==> file_rule_names(rv, i + 1, p) by {
                    if holds_string(file_paths@, p) {
                        let k = choose|k: int| 0 <= k < file_paths@.len() && #[trigger] file_paths@[k]@ == p;
                        if k < fp.len() {
                            assert(fp[k]@ == p);
                            assert(holds_string(fp, p));
                            assert(file_rule_names(rv, i as int, p));
                            let w = choose|w: int| 0 <= w < i && rv[w].kind == IgnoreKind::File && #[trigger] rv[w].path == p;
                            assert(file_rule_names(rv, i + 1, p));
                        } else {
                            assert(p == x);
                            assert(rv[i as int].path == p);
                            assert(file_rule_names(rv, i + 1, p));
                        }
                    }
                    if file_rule_names(rv, i + 1, p) {
                        let k = choose|k: int| 0 <= k < i + 1 && rv[k].kind == IgnoreKind::File && #[trigger] rv[k].path == p;
                        if k < i {
                            assert(file_rule_names(rv, i as int, p));
                            assert(holds_string(fp, p));
                            let m = choose|m: int| 0 <= m < fp.len() && #[trigger] fp[m]@ == p;
                            assert(file_paths@[m] == fp[m]);
                            assert(holds_string(file_paths@, p));
                        } else if present {
                            assert(holds_string(fp, x));
                        } else {
                            assert(file_paths@[fp.len() as int]@ == p);
                            assert(holds_string(file_paths@, p));
                        }
                    }
                }
                assert forall|a: int, b: int|
                    0 <= a < b < file_paths@.len() implies file_paths@[a]@ != file_paths@[b]@ by {
                    if !present && b == fp.len() {
                        assert(file_paths@[a] == fp[a]);
                        if fp[a]@ == x {
                            assert(holds_string(fp, x));
                        }
                    } else {
                        assert(file_paths@[a] == fp[a]);
                        assert(file_paths@[b] == fp[b]);
                    }
                }
            }
        } else {
            let ghost old_dir = dir_rules@;
            dir_rules.push(
                IgnoreRule { path: rule.path.clone(), kind: rule.kind, ignore: rule.ignore.clone() },
            );
            proof {
                assert(rule_views(dir_rules@) =~= rule_views(old_dir).push(rv[i as int]));
                assert forall|p: Seq<char>|
                    holds_string(file_paths@, p) <==> file_rule_names(rv, i + 1, p) by {
                    if file_rule_names(rv, i + 1, p) {
                        let k = choose|k: int| 0 <= k < i + 1 && rv[k].kind == IgnoreKind::File && #[trigger] rv[k].path == p;
                        assert(k < i);
                        assert(file_rule_names(rv, i as int, p));
                    }
                    if file_rule_names(rv, i as int, p) {
                        let k = choose|k: int| 0 <= k < i && rv[k].kind == IgnoreKind::File && #[trigger] rv[k].path == p;
                        assert(file_rule_names(rv, i + 1, p));
                    }
                }
            }
        }
        i = i + 1;
    }
    IgnoreRulesAttachment { file_paths, dir_rules, ignores }
}

/// `ctx` is the context of the source file at `path`.
pub open spec fn is_file_context(ctx: FileContext, path: Seq<char>) -> bool {
    ctx.file matches Some(f) && !f.builtin && f.name@ == path_file_name(path).unwrap() && f.path@
        == path && f.line_starts is None
}

/// The context of the source file at `path`.
pub fn get_file_context(path: String) -> (r: FileContext)
    requires
        path_file_name(path@) is Some,
    ensures
        is_file_context(r, path@),
{
    let mut context = FileContext::new();
    let name = path.file_name_string();
    context.set(FileAttachment { builtin: false, name, path, line_starts: None });
    context
}

/// The ignore rules as written in a module's `[module]` table.
pub open spec fn written_ignores(m: ModuleSection) -> Seq<Seq<char>> {
    match m.ignores {
        Some(v) => string_views(v@),
        None => Seq::empty(),
    }
}

/// `a` holds the rules made of `ignores` for the sources in `source`.
pub open spec fn attachment_of(a: IgnoreRulesAttachment, source: Seq<char>, ignores: Seq<Seq<char>>) -> bool {
    let rules = rules_of(source, ignores);
    &&& a.wf()
    &&& string_views(a.ignores@) == ignores
    &&& rule_views(a.dir_rules@) == dir_rules_upto(rules, rules.len() as int)
    &&& forall|p: Seq<char>| holds_string(a.file_paths@, p) <==> file_rule_names(rules, rules.len() as int, p)
}

/// The source directory of the module at `module_dir`.
pub open spec fn source_dir(module_dir: Seq<char>) -> Seq<char> {
    path_join(module_dir, seq!['s', 'r', 'c'])
}

/// The context of the module `module_name` at `module_dir`, whose checked
/// `puzzle.toml` at `toml_path` holds `toml`, and whose source directory holds
/// `sources`: its name and group, its ignore rules, and one file context for
/// each source file that no rule leaves out. An ignore rule that breaks the
/// ignore pattern is reported.
pub fn get_module_context(
    module_dir: &String,
    toml_path: &String,
    toml: ModuleToml,
    module_name: &str,
    sources: &SourceEntry,
) -> (r: Result<ModuleContext, PzlError>)
    requires
        toml.module matches Some(m) && m.name is Some && m.group is Some,
        source_tree_wf(*sources),
    ensures
        ({
            let m = toml.module.unwrap();
            let igs = written_ignores(m);
            let src = source_dir(module_dir@);
            match r {
                Ok(ctx) => {
                    &&& forall|i: int| 0 <= i < igs.len() ==> valid_ignore(#[trigger] igs[i])
                    &&& ctx.module matches Some(ma) && ma.name@ == m.name.unwrap()@ && string_views(
                        ma.group@,
                    ) == split_str(m.group.unwrap()@, seq!['.'])
                    &&& ctx.ignore_rules matches Some(a) && attachment_of(a, src, igs)
                    &&& ctx.dependences is None
                    &&& ctx.children matches Some(fs) && fs@.len() == source_paths(
                        *sources,
                        ctx.ignore_rules.unwrap(),
                    ).len() && forall|i: int|
                        0 <= i < fs@.len() ==> is_file_context(
                            #[trigger] fs@[i],
                            source_paths(*sources, ctx.ignore_rules.unwrap())[i],
                        )
                    &&& forall|i: int|
                        0 <= i < ctx.children.unwrap()@.len() ==> !file_rule_names(
                            rules_of(src, igs),
                            igs.len() as int,
                            (#[trigger] ctx.children.unwrap()@[i]).file.unwrap().path@,
                        )
                },
                Err(e) => exists|k: int|
                    0 <= k < igs.len() && !valid_ignore(#[trigger] igs[k]) && (forall|i: int|
                        0 <= i < k ==> valid_ignore(#[trigger] igs[i])) && e@ == config_error_value(
                        toml_path@,
                        bad_ignore_text(module_name@, k as nat),
                    ),
            }
        }),
{
    let source_path = join_path(module_dir.as_str(), "src");
    proof {
        reveal_strlit("src");
        assert("src"@ =~= seq!['s', 'r', 'c']);
    }
    let module = match toml.module {
        Some(m) => m,
        None => unreached(),
    };
    let ghost m = module;
    let rules = match module.ignores {
        Some(ignores) => {
            let ghost gi = ignores@;
            match to_ignore_rules(&source_path, toml_path, module_name, ignores) {
                Ok(rules) => rules,
                Err(e) => {
                    proof {
                        let igs = string_views(gi);
                        let k = choose|k: int|
                            0 <= k < gi.len() && !valid_ignore(#[trigger] gi[k]@) && (forall|i: int|
                                0 <= i < k ==> valid_ignore(#[trigger] gi[i]@)) && e@
                                == config_error_value(
                                toml_path@,
                                bad_ignore_text(module_name@, k as nat),
                            );
                        assert(igs[k] == gi[k]@);
                        assert forall|i: int| 0 <= i < k implies valid_ignore(#[trigger] igs[i]) by {
                            assert(igs[i] == gi[i]@);
                        }
                        assert(toml.module.unwrap() == m);
                        assert(written_ignores(toml.module.unwrap()) == igs);
                        assert(0 <= k < igs.len() && !valid_ignore(igs[k]) && (forall|i: int|
                            0 <= i < k ==> valid_ignore(#[trigger] igs[i])) && e@
                            == config_error_value(toml_path@, bad_ignore_text(module_name@, k as nat)));
                    }
                    return Err(e);
                },
            }
        },
        None => {
            let v: Vec<IgnoreRule> = Vec::new();
            proof {
                assert(rule_views(v@) =~= rules_of(source_path@, Seq::<Seq<char>>::empty()));
            }
            v
        },
    };
    let name = match module.name {
        Some(n) => n,
        None => unreached(),
    };
    let group = match module.group {
        Some(g) => g,
        None => unreached(),
    };
    let mut context = ModuleContext::new();
    let parts = group.split_to_vec(".");
    proof {
        reveal_strlit(".");
        assert("."@ =~= seq!['.']);
    }
    context.module = Some(ModuleAttachment { name, group: parts });
    let ghost rv = rule_views(rules@);
    let attachment = ignore_rules_attachment(rules);
    proof {
        assert(string_views(attachment.ignores@) =~= written_ignores(m));
    }
    let paths = collect_all_source_paths(sources, &attachment);
    proof {
        lemma_source_paths_sound(*sources, attachment);
    }
    let ghost sp = source_paths(*sources, attachment);
    context.ignore_rules = Some(attachment);
    let mut files: Vec<FileContext> = Vec::new();
    let mut i: usize = 0;
    while i < paths.len()
        invariant
            i <= paths.len(),
            string_views(paths@) == sp,
            forall|k: int| 0 <= k < sp.len() ==> path_file_name(#[trigger] sp[k]) is Some,
            files@.len() == i,
            forall|k: int| 0 <= k < i ==> is_file_context(#[trigger] files@[k], sp[k]),
        decreases paths.len() - i,
    {
        assert(paths@[i as int]@ == sp[i as int]);
        files.push(get_file_context(paths[i].clone()));
        i = i + 1;
    }
    proof {
        let rules = rules_of(source_path@, written_ignores(m));
        assert forall|k: int| 0 <= k < files@.len() implies !file_rule_names(
            rules,
            written_ignores(m).len() as int,
            (#[trigger] files@[k]).file.unwrap().path@,
        ) by {
            assert(sound_source(sp[k], attachment));
        }
    }
    context.children = Some(files);
    Ok(context)
}

/// The length in bytes (UTF-8) of a path, as `str::len` gives it.
pub open spec fn byte_len(s: String) -> usize {
    encode_utf8(s@).len() as usize
}

/// The length in bytes of the longest of `paths`; 0 where there is none.
pub fn calc_max_path_length(paths: &Vec<String>) -> (r: usize)
    ensures
        forall|i: int| 0 <= i < paths@.len() ==> byte_len(#[trigger] paths@[i]) <= r,
        paths@.len() == 0 ==> r == 0,
        paths@.len() > 0 ==> exists|i: int| 0 <= i < paths@.len() && byte_len(#[trigger] paths@[i]) == r,
{
    let mut max_path_length: usize = 0;
    let mut i: usize = 0;
    while i < paths.len()
        invariant
            i <= paths@.len(),
            forall|k: int| 0 <= k < i ==> byte_len(#[trigger] paths@[k]) <= max_path_length,
            i == 0 ==> max_path_length == 0,
            i > 0 ==> exists|k: int| 0 <= k < i && byte_len(#[trigger] paths@[k]) == max_path_length,
        decreases paths.len() - i,
    {
        let length = paths[i].as_str().len();
        assert(length == byte_len(paths@[i as int]));
        if length > max_path_length || i == 0 {
            max_path_length = length;
        }
        i = i + 1;
    }
    max_path_length
}

/// Every file of every module of every project has its attachment.
pub open spec fn files_attached(projects: Seq<ProjectContext>) -> bool {
    forall|i: int| 0 <= i < projects.len() ==> project_files_attached(#[trigger] projects[i])
}

/// Every file of every module of `p` has its attachment.
pub open spec fn project_files_attached(p: ProjectContext) -> bool {
    p.children matches Some(ms) && forall|j: int|
        0 <= j < ms@.len() ==> module_files_attached(#[trigger] ms@[j])
}

/// Every file of `m` has its attachment.
pub open spec fn module_files_attached(m: ModuleContext) -> bool {
    m.children matches Some(fs) && forall|k: int| 0 <= k < fs@.len() ==> (#[trigger] fs@[k]).file is Some
}

/// The paths of the files of `m`, in order.
pub open spec fn module_file_paths(m: ModuleContext) -> Seq<Seq<char>> {
    m.children.unwrap()@.map_values(|f: FileContext| f.file.unwrap().path@)
}

/// The paths of the files of the modules `ms[..n]`, in order.
pub open spec fn modules_file_paths(ms: Seq<ModuleContext>, n: int) -> Seq<Seq<char>>
    decreases n,
{
    if n <= 0 {
        Seq::empty()
    } else {
        modules_file_paths(ms, n - 1) + module_file_paths(ms[n - 1])
    }
}

/// The paths of the files of the projects `ps[..n]`, in order.
pub open spec fn projects_file_paths(ps: Seq<ProjectContext>, n: int) -> Seq<Seq<char>>
    decreases n,
{
    if n <= 0 {
        Seq::empty()
    } else {
        let ms = ps[n - 1].children.unwrap()@;
        projects_file_paths(ps, n - 1) + modules_file_paths(ms, ms.len() as int)
    }
}

/// The paths of the files of every module of every project, in order.
pub fn all_file_paths(projects: &Vec<ProjectContext>) -> (r: Vec<String>)
    requires
        files_attached(projects@),
    ensures
        string_views(r@) == projects_file_paths(projects@, projects@.len() as int),
{
    let mut r: Vec<String> = Vec::new();
    let mut i: usize = 0;
    proof {
        assert(string_views(r@) =~= Seq::<Seq<char>>::empty());
    }
    while i < projects.len()
        invariant
            i <= projects@.len(),
            files_attached(projects@),
            string_views(r@) == projects_file_paths(projects@, i as int),
        decreases projects.len() - i,
    {
        assert(project_files_attached(projects@[i as int]));
        let modules = match &projects[i].children {
            Some(ms) => ms,
            None => unreached(),
        };
        let ghost base = string_views(r@);
        let mut j: usize = 0;
        proof {
            assert(base + modules_file_paths(modules@, 0) =~= base);
        }
        while j < modules.len()
            invariant
                j <= modules@.len(),
                forall|k: int| 0 <= k < modules@.len() ==> module_files_attached(#[trigger] modules@[k]),
                string_views(r@) == base + modules_file_paths(modules@, j as int),
            decreases modules.len() - j,
        {
            assert(module_files_attached(modules@[j as int]));
            let files = match &modules[j].children {
                Some(fs) => fs,
                None => unreached(),
            };
            let ghost mid = string_views(r@);
            let mut k: usize = 0;
            while k < files.len()
                invariant
                    k <= files@.len(),
                    forall|x: int| 0 <= x < files@.len() ==> (#[trigger] files@[x]).file is Some,
                    string_views(r@) == mid + files@.take(k as int).map_values(
                        |f: FileContext| f.file.unwrap().path@,
                    ),
                decreases files.len() - k,
            {
                assert(files@[k as int].file is Some);
                let path = match &files[k].file {
                    Some(a) => a.path.clone(),
                    None => unreached(),
                };
                let ghost before = string_views(r@);
                r.push(path);
                proof {
                    assert(files@.take(k + 1).map_values(|f: FileContext| f.file.unwrap().path@)
                        =~= files@.take(k as int).map_values(|f: FileContext| f.file.unwrap().path@).push(
                        path@,
                    ));
                    assert(string_views(r@) =~= before.push(path@));
                }
                k = k + 1;
            }
            proof {
                assert(files@.take(files@.len() as int) =~= files@);
                assert(module_file_paths(modules@[j as int]) == files@.map_values(
                    |f: FileContext| f.file.unwrap().path@,
                ));
                assert(string_views(r@) =~= base + modules_file_paths(modules@, j + 1));
            }
            j = j + 1;
        }
        proof {
            assert(string_views(r@) =~= projects_file_paths(projects@, i + 1));
        }
        i = i + 1;
    }
    r
}

} // verus!
