//! The source files of a module: the `.pzl` files under its source directory
//! that no ignore rule leaves out.
use vstd::prelude::*;
use crate::config::ignore::{IgnoreKind, IgnoreRule, IgnoreRulesAttachment};
use crate::driver::collect::{holds_string, contains_string};
use crate::extension::{path_file_name, path_join, plain_component, string_views, PathBufExt};
use crate::text::{ends_with, str_eq};

verus! {

/// What the file system holds at a path, as far as the search for sources
/// needs it: a file, a directory with its entries (in the order the directory
/// lists them), or anything else (including nothing).
pub enum SourceEntry {
    File { path: String },
    Dir { path: String, entries: Vec<SourceEntry> },
    Other { path: String },
}

/// The path of an entry.
pub open spec fn entry_path(e: SourceEntry) -> Seq<char> {
    match e {
        SourceEntry::File { path } => path@,
        SourceEntry::Dir { path, .. } => path@,
        SourceEntry::Other { path } => path@,
    }
}

/// The entry `e` lies directly in the directory `dir`: its path is `dir`
/// joined with its own name, a single plain path component.
pub open spec fn lies_in(e: SourceEntry, dir: Seq<char>) -> bool {
    &&& path_file_name(entry_path(e)) matches Some(c) && plain_component(c)
    &&& entry_path(e) == path_join(dir, path_file_name(entry_path(e)).unwrap())
}

/// The tree is as a directory listing gives it: every file has a final path
/// component, every entry of a directory lies directly in that directory, and
/// no two entries of a directory have the same path.
pub open spec fn source_tree_wf(e: SourceEntry) -> bool
    decreases e,
{
    match e {
        SourceEntry::File { path } => path_file_name(path@) is Some,
        SourceEntry::Dir { path, entries } => {
            &&& forall|i: int| 0 <= i < entries@.len() ==> source_tree_wf(#[trigger] entries@[i])
            &&& forall|i: int| 0 <= i < entries@.len() ==> lies_in(#[trigger] entries@[i], path@)
            &&& forall|i: int, j: int|
                0 <= i < j < entries@.len() ==> entry_path(#[trigger] entries@[i]) != entry_path(
                    #[trigger] entries@[j],
                )
        },
        SourceEntry::Other { .. } => true,
    }
}

/// A source file is a file whose name ends in `.pzl`.
pub open spec fn is_source_name(path: Seq<char>) -> bool {
    let n = path_file_name(path).unwrap();
    n.len() >= 4 && n.skip(n.len() - 4) == seq!['.', 'p', 'z', 'l']
}

/// What the first rule among `rules[from..]` about the directory `path`
/// leaves out.
pub open spec fn dir_rule_from(rules: Seq<IgnoreRule>, from: int, path: Seq<char>) -> Option<
    IgnoreKind,
>
    decreases rules.len() - from,
{
    if from < 0 || from >= rules.len() {
        None
    } else if rules[from].path@ == path {
        Some(rules[from].kind)
    } else {
        dir_rule_from(rules, from + 1, path)
    }
}

/// The sources under `e`: a `.pzl` file that no file rule names; in a
/// directory without rule, the sources under each entry; in a directory under
/// a `*` rule, the sources under each of its sub-directories; nothing in a
/// directory under a `**` rule or elsewhere.
pub open spec fn source_paths(e: SourceEntry, a: IgnoreRulesAttachment) -> Seq<Seq<char>>
    decreases e, 0int,
{
    match e {
        SourceEntry::File { path } => if is_source_name(path@) && !holds_string(
            a.file_paths@,
            path@,
        ) {
            seq![path@]
        } else {
            Seq::empty()
        },
        SourceEntry::Dir { path, entries } => match dir_rule_from(a.dir_rules@, 0, path@) {
            None => entries_paths(entries@, entries@.len() as int, a, false),
            Some(IgnoreKind::Children) => entries_paths(entries@, entries@.len() as int, a, true),
            Some(_) => Seq::empty(),
        },
        SourceEntry::Other { .. } => Seq::empty(),
    }
}

/// The sources under `es[..n]`, in order; with `dirs_only`, under its
/// directories only.
pub open spec fn entries_paths(
    es: Seq<SourceEntry>,
    n: int,
    a: IgnoreRulesAttachment,
    dirs_only: bool,
) -> Seq<Seq<char>>
    decreases es, n,
{
    if n <= 0 || n > es.len() {
        Seq::empty()
    } else {
        let here = if dirs_only && !(es[n - 1] is Dir) {
            Seq::empty()
        } else {
            source_paths(es[n - 1], a)
        };
        entries_paths(es, n - 1, a, dirs_only) + here
    }
}

/// What the first rule about the directory `path` leaves out.
fn dir_rule(rules: &Vec<IgnoreRule>, path: &String) -> (r: Option<IgnoreKind>)
    ensures
        r == dir_rule_from(rules@, 0, path@),
{
    let mut i: usize = 0;
    while i < rules.len()
        invariant
            i <= rules.len(),
            dir_rule_from(rules@, 0, path@) == dir_rule_from(rules@, i as int, path@),
        decreases rules.len() - i,
    {
        if str_eq(rules[i].path.as_str(), path.as_str()) {
            return Some(rules[i].kind);
        }
        i = i + 1;
    }
    None
}

/// The paths of the source files under `entry`, in the order in which the
/// directories list them.
pub fn collect_all_source_paths(entry: &SourceEntry, attachment: &IgnoreRulesAttachment) -> (r:
    Vec<String>)
    requires
        source_tree_wf(*entry),
    ensures
        string_views(r@) == source_paths(*entry, *attachment),
    decreases entry,
{
    match entry {
        SourceEntry::File { path } => {
            let name = path.file_name_string();
            proof {
                reveal_strlit(".pzl");
                assert(".pzl"@ =~= seq!['.', 'p', 'z', 'l']);
            }
            let mut r: Vec<String> = Vec::new();
            if ends_with(name.as_str(), ".pzl") && !contains_string(&attachment.file_paths, path) {
                r.push(path.clone());
                proof {
                    assert(string_views(r@) =~= seq![path@]);
                }
            } else {
                proof {
                    assert(string_views(r@) =~= Seq::<Seq<char>>::empty());
                }
            }
            r
        },
        SourceEntry::Dir { path, entries } => {
            let mut r: Vec<String> = Vec::new();
            let rule = dir_rule(&attachment.dir_rules, path);
            let dirs_only = match rule {
                None => false,
                Some(IgnoreKind::Children) => true,
                Some(_) => {
                    proof {
                        assert(string_views(r@) =~= Seq::<Seq<char>>::empty());
                    }
                    return r;
                },
            };
            let mut i: usize = 0;
            proof {
                assert(string_views(r@) =~= Seq::<Seq<char>>::empty());
            }
            while i < entries.len()
                invariant
                    i <= entries@.len(),
                    (*entry) is Dir,
                    (*entry)->entries == *entries,
                    forall|j: int| 0 <= j < entries@.len() ==> source_tree_wf(#[trigger] entries@[j]),
                    string_views(r@) == entries_paths(entries@, i as int, *attachment, dirs_only),
                decreases entries.len() - i,
            {
                let child = &entries[i];
                let skip = dirs_only && !matches!(child, SourceEntry::Dir { .. });
                if !skip {
                    proof {
                        let ghost es: Vec<SourceEntry> = *entries;
                        assert(decreases_to!(es => es@));
                        assert(decreases_to!(es@ => es@[i as int]));
                        assert((*entry)->entries == es);
                        assert(decreases_to!(*entry => (*entry)->entries));
                        assert(decreases_to!(*entry => entries@[i as int]));
                    }
                    let mut sub = collect_all_source_paths(child, attachment);
                    let ghost before = r@;
                    r.append(&mut sub);
                    proof {
                        assert(string_views(r@) =~= string_views(before) + source_paths(
                            entries@[i as int],
                            *attachment,
                        ));
                    }
                } else {
                    proof {
                        assert(entries_paths(entries@, i + 1, *attachment, dirs_only)
                            =~= entries_paths(entries@, i as int, *attachment, dirs_only));
                    }
                }
                i = i + 1;
            }
            r
        },
        SourceEntry::Other { .. } => {
            let r: Vec<String> = Vec::new();
            proof {
                assert(string_views(r@) =~= Seq::<Seq<char>>::empty());
            }
            r
        },
    }
}

/// What every source found holds: it has a final path component, that
/// component ends in `.pzl`, and no file rule names it.
pub open spec fn sound_source(p: Seq<char>, a: IgnoreRulesAttachment) -> bool {
    path_file_name(p) is Some && is_source_name(p) && !holds_string(a.file_paths@, p)
}

/// Ignored files are never sources: every path found under a well-formed tree
/// is a `.pzl` file that no file rule names.
pub proof fn lemma_source_paths_sound(e: SourceEntry, a: IgnoreRulesAttachment)
    requires
        source_tree_wf(e),
    ensures
        forall|i: int|
            0 <= i < source_paths(e, a).len() ==> sound_source(#[trigger] source_paths(e, a)[i], a),
    decreases e, 0int,
{
    match e {
        SourceEntry::File { path } => {
            assert(path_file_name(path@) is Some);
            if is_source_name(path@) && !holds_string(a.file_paths@, path@) {
                assert(source_paths(e, a) == seq![path@]);
                assert(source_paths(e, a)[0] == path@);
                assert(sound_source(path@, a));
                assert forall|i: int| 0 <= i < source_paths(e, a).len() implies sound_source(
                    #[trigger] source_paths(e, a)[i],
                    a,
                ) by {
                    assert(i == 0);
                }
            } else {
                assert(source_paths(e, a).len() == 0);
            }
        },
        SourceEntry::Dir { path, entries } => {
            let n = entries@.len() as int;
            match dir_rule_from(a.dir_rules@, 0, path@) {
                None => {
                    lemma_entries_paths_sound(entries@, n, a, false);
                    assert(source_paths(e, a) == entries_paths(entries@, n, a, false));
                },
                Some(IgnoreKind::Children) => {
                    lemma_entries_paths_sound(entries@, n, a, true);
                    assert(source_paths(e, a) == entries_paths(entries@, n, a, true));
                },
                Some(_) => {
                    assert(source_paths(e, a).len() == 0);
                },
            }
        },
        SourceEntry::Other { .. } => {
            assert(source_paths(e, a).len() == 0);
        },
    }
}

/// Every path found under well-formed entries is a `.pzl` file that no file
/// rule names.
pub proof fn lemma_entries_paths_sound(
    es: Seq<SourceEntry>,
    n: int,
    a: IgnoreRulesAttachment,
    dirs_only: bool,
)
    requires
        forall|i: int| 0 <= i < es.len() ==> source_tree_wf(#[trigger] es[i]),
    ensures
        forall|i: int|
            0 <= i < entries_paths(es, n, a, dirs_only).len() ==> sound_source(
                #[trigger] entries_paths(es, n, a, dirs_only)[i],
                a,
            ),
    decreases es, n,
{
    if n <= 0 || n > es.len() {
    } else {
        lemma_entries_paths_sound(es, n - 1, a, dirs_only);
        assert(decreases_to!(es => es[n - 1]));
        lemma_source_paths_sound(es[n - 1], a);
        let prev = entries_paths(es, n - 1, a, dirs_only);
        let here = if dirs_only && !(es[n - 1] is Dir) {
            Seq::<Seq<char>>::empty()
        } else {
            source_paths(es[n - 1], a)
        };
        assert(entries_paths(es, n, a, dirs_only) == prev + here);
        assert forall|i: int| 0 <= i < (prev + here).len() implies sound_source(
            #[trigger] (prev + here)[i],
            a,
        ) by {
            if i < prev.len() {
                assert((prev + here)[i] == prev[i]);
            } else {
                assert((prev + here)[i] == here[i - prev.len()]);
            }
        }
    }
}

/// `a2` ignores at least what `a1` ignores: every file that a file rule of
/// `a1` names is named in `a2` too, every directory rule of `a1` is a rule of
/// `a2`, and `a2` has at most one rule on each directory.
pub open spec fn rules_extend(a1: IgnoreRulesAttachment, a2: IgnoreRulesAttachment) -> bool {
    &&& forall|i: int|
        0 <= i < a1.file_paths@.len() ==> holds_string(a2.file_paths@, #[trigger] a1.file_paths@[i]@)
    &&& forall|i: int|
        0 <= i < a1.dir_rules@.len() ==> exists|j: int|
            0 <= j < a2.dir_rules@.len() && (#[trigger] a2.dir_rules@[j]).path@ == (
            #[trigger] a1.dir_rules@[i]).path@ && a2.dir_rules@[j].kind == a1.dir_rules@[i].kind
    &&& forall|i: int, j: int|
        0 <= i < j < a2.dir_rules@.len() ==> (#[trigger] a2.dir_rules@[i]).path@ != (
        #[trigger] a2.dir_rules@[j]).path@
}

/// The rule that `dir_rule_from` finds is one of the rules.
proof fn lemma_dir_rule_found(rules: Seq<IgnoreRule>, from: int, d: Seq<char>)
    requires
        0 <= from,
    ensures
        dir_rule_from(rules, from, d) matches Some(k) ==> exists|i: int|
            from <= i < rules.len() && (#[trigger] rules[i]).path@ == d && rules[i].kind == k,
    decreases rules.len() - from,
{
    if from < rules.len() && rules[from].path@ != d {
        lemma_dir_rule_found(rules, from + 1, d);
    }
}

/// Where only one rule is about a directory, that rule is the one found.
proof fn lemma_dir_rule_unique(rules: Seq<IgnoreRule>, from: int, d: Seq<char>, i: int)
    requires
        0 <= from <= i < rules.len(),
        rules[i].path@ == d,
        forall|x: int, y: int|
            0 <= x < y < rules.len() ==> (#[trigger] rules[x]).path@ != (#[trigger] rules[y]).path@,
    ensures
        dir_rule_from(rules, from, d) == Some(rules[i].kind),
    decreases i - from,
{
    if from < i {
        assert(rules[from].path@ != rules[i].path@);
        lemma_dir_rule_unique(rules, from + 1, d, i);
    }
}

/// Where `a2` ignores at least what `a1` ignores, a directory that `a1` has a
/// rule on has the same rule in `a2`.
proof fn lemma_rule_extends(a1: IgnoreRulesAttachment, a2: IgnoreRulesAttachment, d: Seq<char>)
    requires
        rules_extend(a1, a2),
    ensures
        dir_rule_from(a1.dir_rules@, 0, d) matches Some(k) ==> dir_rule_from(a2.dir_rules@, 0, d)
            == Some(k),
{
    lemma_dir_rule_found(a1.dir_rules@, 0, d);
    if dir_rule_from(a1.dir_rules@, 0, d) is Some {
        let i = choose|i: int|
            0 <= i < a1.dir_rules@.len() && (#[trigger] a1.dir_rules@[i]).path@ == d
                && a1.dir_rules@[i].kind == dir_rule_from(a1.dir_rules@, 0, d)->Some_0;
        let j = choose|j: int|
            0 <= j < a2.dir_rules@.len() && (#[trigger] a2.dir_rules@[j]).path@ == a1.dir_rules@[i].path@
                && a2.dir_rules@[j].kind == a1.dir_rules@[i].kind;
        lemma_dir_rule_unique(a2.dir_rules@, 0, d, j);
    }
}

proof fn lemma_concat_contains(p: Seq<Seq<char>>, h: Seq<Seq<char>>, k: int)
    requires
        0 <= k < h.len(),
    ensures
        (p + h).contains(h[k]),
{
    assert((p + h)[p.len() + k] == h[k]);
}

proof fn lemma_concat_contains_left(p: Seq<Seq<char>>, h: Seq<Seq<char>>, x: Seq<char>)
    requires
        p.contains(x),
    ensures
        (p + h).contains(x),
{
    let k = choose|k: int| 0 <= k < p.len() && p[k] == x;
    assert((p + h)[k] == x);
}

/// Adding ignore rules never adds a source: where `a2` ignores at least what
/// `a1` ignores, every source found under `e` with `a2` is found with `a1`.
pub proof fn lemma_more_rules_fewer_sources(
    e: SourceEntry,
    a1: IgnoreRulesAttachment,
    a2: IgnoreRulesAttachment,
)
    requires
        rules_extend(a1, a2),
    ensures
        forall|i: int|
            0 <= i < source_paths(e, a2).len() ==> source_paths(e, a1).contains(
                #[trigger] source_paths(e, a2)[i],
            ),
    decreases e, 0int,
{
    match e {
        SourceEntry::File { path } => {
            if is_source_name(path@) && !holds_string(a2.file_paths@, path@) {
                assert(!holds_string(a1.file_paths@, path@)) by {
                    if holds_string(a1.file_paths@, path@) {
                        let k = choose|k: int|
                            0 <= k < a1.file_paths@.len() && #[trigger] a1.file_paths@[k]@ == path@;
                        assert(holds_string(a2.file_paths@, a1.file_paths@[k]@));
                    }
                }
                assert(source_paths(e, a1) == seq![path@]);
                assert(source_paths(e, a2) == seq![path@]);
                assert(source_paths(e, a1)[0] == path@);
                assert(source_paths(e, a1).contains(path@));
                assert forall|i: int| 0 <= i < source_paths(e, a2).len() implies source_paths(
                    e,
                    a1,
                ).contains(#[trigger] source_paths(e, a2)[i]) by {
                    assert(i == 0);
                    assert(source_paths(e, a2)[i] == path@);
                }
            } else {
                assert(source_paths(e, a2).len() == 0);
            }
        },
        SourceEntry::Dir { path, entries } => {
            let n = entries@.len() as int;
            lemma_rule_extends(a1, a2, path@);
            let r1 = dir_rule_from(a1.dir_rules@, 0, path@);
            let r2 = dir_rule_from(a2.dir_rules@, 0, path@);
            match r2 {
                None => {
                    assert(r1 is None);
                    lemma_entries_fewer_sources(entries@, n, a1, a2, false, false);
                    assert(source_paths(e, a1) == entries_paths(entries@, n, a1, false));
                    assert(source_paths(e, a2) == entries_paths(entries@, n, a2, false));
                },
                Some(IgnoreKind::Children) => {
                    let d1 = r1 is Some;
                    assert(r1 is Some ==> r1 == Some(IgnoreKind::Children));
                    lemma_entries_fewer_sources(entries@, n, a1, a2, d1, true);
                    assert(source_paths(e, a1) == entries_paths(entries@, n, a1, d1));
                    assert(source_paths(e, a2) == entries_paths(entries@, n, a2, true));
                },
                Some(_) => {
                    assert(source_paths(e, a2).len() == 0);
                },
            }
        },
        SourceEntry::Other { .. } => {
            assert(source_paths(e, a2).len() == 0);
        },
    }
}

/// Adding ignore rules never adds a source under the entries `es[..n]`,
/// where `a1` looks at the directories only if `a2` does.
proof fn lemma_entries_fewer_sources(
    es: Seq<SourceEntry>,
    n: int,
    a1: IgnoreRulesAttachment,
    a2: IgnoreRulesAttachment,
    d1: bool,
    d2: bool,
)
    requires
        rules_extend(a1, a2),
        d1 ==> d2,
    ensures
        forall|i: int|
            0 <= i < entries_paths(es, n, a2, d2).len() ==> entries_paths(es, n, a1, d1).contains(
                #[trigger] entries_paths(es, n, a2, d2)[i],
            ),
    decreases es, n,
{
    if n <= 0 || n > es.len() {
    } else {
        lemma_entries_fewer_sources(es, n - 1, a1, a2, d1, d2);
        assert(decreases_to!(es => es[n - 1]));
        lemma_more_rules_fewer_sources(es[n - 1], a1, a2);
        let prev1 = entries_paths(es, n - 1, a1, d1);
        let prev2 = entries_paths(es, n - 1, a2, d2);
        let here1 = if d1 && !(es[n - 1] is Dir) {
            Seq::<Seq<char>>::empty()
        } else {
            source_paths(es[n - 1], a1)
        };
        let here2 = if d2 && !(es[n - 1] is Dir) {
            Seq::<Seq<char>>::empty()
        } else {
            source_paths(es[n - 1], a2)
        };
        assert(entries_paths(es, n, a1, d1) == prev1 + here1);
        assert(entries_paths(es, n, a2, d2) == prev2 + here2);
        assert forall|i: int| 0 <= i < (prev2 + here2).len() implies (prev1 + here1).contains(
            #[trigger] (prev2 + here2)[i],
        ) by {
            if i < prev2.len() {
                assert((prev2 + here2)[i] == prev2[i]);
                lemma_concat_contains_left(prev1, here1, prev2[i]);
            } else {
                let k = i - prev2.len();
                assert((prev2 + here2)[i] == here2[k]);
                assert(here2 == source_paths(es[n - 1], a2));
                assert(here1 == source_paths(es[n - 1], a1));
                let x = here2[k];
                assert(here1.contains(x));
                let m = choose|m: int| 0 <= m < here1.len() && here1[m] == x;
                lemma_concat_contains(prev1, here1, m);
            }
        }
    }
}

} // verus!
