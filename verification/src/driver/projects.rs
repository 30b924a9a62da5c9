//! The order in which the projects of a build are taken: every project after
//! the projects it depends on.
use vstd::prelude::*;
use crate::config::toml::project::ProjectToml;

verus! {

/// A project as it was read, with the projects that its dependences name,
/// in the order of its `[deps]` table.
pub struct ProjectNode {
    pub path: String,
    pub toml_path: String,
    pub toml: ProjectToml,
    pub deps: Vec<ProjectNode>,
}

/// A project of the build: where it lies, where its `puzzle.toml` lies, and
/// that file's checked contents.
pub struct ProjectItem {
    pub path: String,
    pub toml_path: String,
    pub toml: ProjectToml,
}

/// The project of a node, without its dependences.
pub open spec fn item_of(n: ProjectNode) -> ProjectItem {
    ProjectItem { path: n.path, toml_path: n.toml_path, toml: n.toml }
}

/// The projects under `n`, dependences first: for each dependence in order,
/// the projects under it, and then the project of `n` itself.
pub open spec fn dependence_order(n: ProjectNode) -> Seq<ProjectItem>
    decreases n, 0int,
{
    nodes_order(n.deps@, n.deps@.len() as int).push(item_of(n))
}

/// The projects under each of `ns[..k]`, in order.
pub open spec fn nodes_order(ns: Seq<ProjectNode>, k: int) -> Seq<ProjectItem>
    decreases ns, k,
{
    if k <= 0 || k > ns.len() {
        Seq::empty()
    } else {
        nodes_order(ns, k - 1) + dependence_order(ns[k - 1])
    }
}

/// The projects of a build, from the tree read from its root project: every
/// project after the projects that it depends on.
pub fn dependencies_first(node: ProjectNode) -> (r: Vec<ProjectItem>)
    ensures
        r@ == dependence_order(node),
    decreases node,
{
    let ghost orig = node;
    let ProjectNode { path, toml_path, toml, deps } = node;
    let ghost all = deps@;
    let mut deps = deps;
    let mut r: Vec<ProjectItem> = Vec::new();
    let mut k: usize = 0;
    let n = deps.len();
    proof {
        assert(decreases_to!(orig => orig.deps));
    }
    while k < n
        invariant
            k <= n == all.len(),
            deps@ == all.skip(k as int),
            all == orig.deps@,
            orig == node,
            r@ == nodes_order(all, k as int),
            forall|i: int| 0 <= i < all.len() ==> decreases_to!(orig => #[trigger] all[i]),
        decreases n - k,
    {
        let ghost before = r@;
        let child = deps.remove(0);
        assert(child == all[k as int]);
        assert(decreases_to!(orig => child));
        let mut sub = dependencies_first(child);
        r.append(&mut sub);
        k = k + 1;
        assert(deps@ =~= all.skip(k as int));
        assert(r@ =~= nodes_order(all, k as int));
    }
    r.push(ProjectItem { path, toml_path, toml });
    r
}

/// `m` is `n` or a project that `n` depends on, directly or through other
/// projects.
pub open spec fn in_tree(n: ProjectNode, m: ProjectNode) -> bool
    decreases n, 0int,
{
    m == n || in_trees(n.deps@, n.deps@.len() as int, m)
}

/// `m` is in the tree of one of the projects `ns[..k]`.
pub open spec fn in_trees(ns: Seq<ProjectNode>, k: int, m: ProjectNode) -> bool
    decreases ns, k,
{
    if k <= 0 || k > ns.len() {
        false
    } else {
        in_trees(ns, k - 1, m) || in_tree(ns[k - 1], m)
    }
}

/// The number of projects in the tree of `n`, each counted as often as it
/// is reached.
pub open spec fn tree_size(n: ProjectNode) -> nat
    decreases n, 0int,
{
    1 + trees_size(n.deps@, n.deps@.len() as int)
}

/// The number of projects in the trees of `ns[..k]`.
pub open spec fn trees_size(ns: Seq<ProjectNode>, k: int) -> nat
    decreases ns, k,
{
    if k <= 0 || k > ns.len() {
        0
    } else {
        trees_size(ns, k - 1) + tree_size(ns[k - 1])
    }
}

/// In `ns`, every project comes after each project that it depends on
/// directly.
pub open spec fn dependences_before(ns: Seq<ProjectNode>) -> bool {
    forall|j: int, i: int|
        0 <= j < ns.len() && 0 <= i < ns[j].deps@.len() ==> #[trigger] ns.take(j).contains(
            ns[j].deps@[i],
        )
}

spec fn node_order(n: ProjectNode) -> Seq<ProjectNode>
    decreases n, 0int,
{
    nodes_node_order(n.deps@, n.deps@.len() as int).push(n)
}

spec fn nodes_node_order(ns: Seq<ProjectNode>, k: int) -> Seq<ProjectNode>
    decreases ns, k,
{
    if k <= 0 || k > ns.len() {
        Seq::empty()
    } else {
        nodes_node_order(ns, k - 1) + node_order(ns[k - 1])
    }
}

proof fn lemma_before_concat(a: Seq<ProjectNode>, b: Seq<ProjectNode>)
    requires
        dependences_before(a),
        dependences_before(b),
    ensures
        dependences_before(a + b),
{
    let s = a + b;
    assert forall|j: int, i: int| 0 <= j < s.len() && 0 <= i < s[j].deps@.len() implies #[trigger] s.take(
        j,
    ).contains(s[j].deps@[i]) by {
        if j < a.len() {
            assert(s[j] == a[j]);
            assert(a.take(j).contains(a[j].deps@[i]));
            let k = choose|k: int| 0 <= k < a.take(j).len() && a.take(j)[k] == a[j].deps@[i];
            assert(s.take(j)[k] == a[k]);
        } else {
            let jb = j - a.len();
            assert(s[j] == b[jb]);
            assert(b.take(jb).contains(b[jb].deps@[i]));
            let k = choose|k: int| 0 <= k < b.take(jb).len() && b.take(jb)[k] == b[jb].deps@[i];
            assert(s.take(j)[a.len() + k] == b[k]);
        }
    }
}

proof fn lemma_contains_concat(a: Seq<ProjectNode>, b: Seq<ProjectNode>, m: ProjectNode)
    ensures
        (a + b).contains(m) <==> a.contains(m) || b.contains(m),
{
    let s = a + b;
    if s.contains(m) {
        let k = choose|k: int| 0 <= k < s.len() && s[k] == m;
        if k < a.len() {
            assert(a[k] == m);
        } else {
            assert(b[k - a.len()] == m);
        }
    }
    if a.contains(m) {
        let k = choose|k: int| 0 <= k < a.len() && a[k] == m;
        assert(s[k] == m);
    }
    if b.contains(m) {
        let k = choose|k: int| 0 <= k < b.len() && b[k] == m;
        assert(s[a.len() + k] == m);
    }
}

proof fn lemma_node_order(n: ProjectNode)
    ensures
        dependence_order(n) == node_order(n).map_values(|x: ProjectNode| item_of(x)),
        forall|m: ProjectNode| in_tree(n, m) <==> #[trigger] node_order(n).contains(m),
        dependences_before(node_order(n)),
        node_order(n).last() == n,
        node_order(n).len() == tree_size(n),
    decreases n, 0int,
{
    let ds = n.deps@;
    let x = nodes_node_order(ds, ds.len() as int);
    assert(decreases_to!(n => n.deps));
    lemma_nodes_node_order(ds, ds.len() as int);
    let s = x.push(n);
    assert(s.map_values(|y: ProjectNode| item_of(y)) =~= x.map_values(|y: ProjectNode| item_of(y)).push(item_of(n)));
    assert forall|m: ProjectNode| in_tree(n, m) <==> #[trigger] s.contains(m) by {
        lemma_contains_concat(x, seq![n], m);
        assert(s =~= x + seq![n]);
        assert(seq![n].contains(m) <==> m == n) by {
            if m == n {
                assert(seq![n][0] == m);
            }
        }
    }
    assert forall|j: int, i: int| 0 <= j < s.len() && 0 <= i < s[j].deps@.len() implies #[trigger] s.take(
        j,
    ).contains(s[j].deps@[i]) by {
        if j < x.len() {
            assert(s[j] == x[j]);
            assert(x.take(j).contains(x[j].deps@[i]));
            let k = choose|k: int| 0 <= k < x.take(j).len() && x.take(j)[k] == x[j].deps@[i];
            assert(s.take(j)[k] == x[k]);
        } else {
            assert(s[j] == n);
            let d = ds[i];
            assert(in_tree(d, d));
            lemma_in_trees_member(ds, ds.len() as int, i, d);
            assert(x.contains(d));
            let k = choose|k: int| 0 <= k < x.len() && x[k] == d;
            assert(s.take(j)[k] == d);
        }
    }
}

proof fn lemma_nodes_node_order(ns: Seq<ProjectNode>, k: int)
    requires
        0 <= k <= ns.len(),
    ensures
        nodes_order(ns, k) == nodes_node_order(ns, k).map_values(|x: ProjectNode| item_of(x)),
        forall|m: ProjectNode| in_trees(ns, k, m) <==> #[trigger] nodes_node_order(ns, k).contains(m),
        dependences_before(nodes_node_order(ns, k)),
        nodes_node_order(ns, k).len() == trees_size(ns, k),
    decreases ns, k,
{
    if k == 0 {
        assert(nodes_node_order(ns, k).map_values(|x: ProjectNode| item_of(x)) =~= Seq::<ProjectItem>::empty());
    } else {
        lemma_nodes_node_order(ns, k - 1);
        assert(decreases_to!(ns => ns[k - 1]));
        lemma_node_order(ns[k - 1]);
        let a = nodes_node_order(ns, k - 1);
        let b = node_order(ns[k - 1]);
        assert((a + b).map_values(|x: ProjectNode| item_of(x)) =~= a.map_values(|x: ProjectNode| item_of(x)) + b.map_values(|x: ProjectNode| item_of(x)));
        lemma_before_concat(a, b);
        assert forall|m: ProjectNode| in_trees(ns, k, m) <==> #[trigger] (a + b).contains(m) by {
            lemma_contains_concat(a, b, m);
        }
    }
}

/// A project among `ns[..k]` is in their trees.
proof fn lemma_in_trees_member(ns: Seq<ProjectNode>, k: int, i: int, m: ProjectNode)
    requires
        0 <= i < k <= ns.len(),
        m == ns[i],
    ensures
        in_trees(ns, k, m),
    decreases k,
{
    if i < k - 1 {
        lemma_in_trees_member(ns, k - 1, i, m);
    } else {
        assert(in_tree(ns[k - 1], m));
    }
}

/// The projects of a build are gathered dependencies first: what
/// `dependencies_first` gives for the tree read from `n` lists, in order, the
/// projects of a sequence that holds exactly the projects of that tree (`n`
/// and every project that it depends on, directly or through others), in
/// which every project comes after each project that it depends on, and which
/// ends with `n`; a project reached along several paths is listed once for
/// each.
pub proof fn lemma_dependencies_first(n: ProjectNode)
    ensures
        exists|ns: Seq<ProjectNode>|
            {
                &&& dependence_order(n) == ns.map_values(|x: ProjectNode| item_of(x))
                &&& forall|m: ProjectNode| in_tree(n, m) <==> #[trigger] ns.contains(m)
                &&& #[trigger] dependences_before(ns)
                &&& ns.len() == tree_size(n)
                &&& ns.len() > 0
                &&& ns.last() == n
            },
{
    lemma_node_order(n);
    let ns = node_order(n);
    assert(ns.len() > 0);
    assert(dependence_order(n) == ns.map_values(|x: ProjectNode| item_of(x)));
}

} // verus!
