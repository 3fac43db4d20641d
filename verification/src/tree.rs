//! The file explorer: a lazily loaded tree of the workspace, its flattened
//! visible rows, the selected row and the scroll position.
use vstd::prelude::*;

use crate::git::StatusMap;
use crate::paths::{starts_with, path_starts_with};
use crate::text::{chars_of, compare_chars};

verus! {

// ---------------------------------------------------------------------------
// Nodes and their mathematical model
// ---------------------------------------------------------------------------

pub struct TreeNode {
    pub name: String,
    pub path: String,
    pub is_dir: bool,
    pub expanded: bool,
    /// `None` until the directory's entries are loaded.
    pub children: Option<Vec<TreeNode>>,
    pub git: Option<char>,
}

/// A node as a mathematical value.
pub struct NodeV {
    pub name: Seq<char>,
    pub path: Seq<char>,
    pub is_dir: bool,
    pub expanded: bool,
    pub children: Option<Seq<NodeV>>,
    pub git: Option<char>,
}

pub open spec fn view_node(n: TreeNode) -> NodeV
    decreases n,
{
    NodeV {
        name: n.name@,
        path: n.path@,
        is_dir: n.is_dir,
        expanded: n.expanded,
        children: match n.children {
            None => None,
            Some(cs) => Some(view_nodes(cs@)),
        },
        git: n.git,
    }
}

pub open spec fn view_nodes(cs: Seq<TreeNode>) -> Seq<NodeV>
    decreases cs,
{
    if cs.len() == 0 {
        Seq::empty()
    } else {
        view_nodes(cs.drop_last()).push(view_node(cs.last()))
    }
}

pub proof fn lemma_view_nodes(cs: Seq<TreeNode>)
    ensures
        view_nodes(cs).len() == cs.len(),
        forall|i: int| 0 <= i < cs.len() ==> #[trigger] view_nodes(cs)[i] == view_node(cs[i]),
    decreases cs.len(),
{
    if cs.len() > 0 {
        lemma_view_nodes(cs.drop_last());
        assert forall|i: int| 0 <= i < cs.len() implies #[trigger] view_nodes(cs)[i] == view_node(cs[i]) by {
            if i < cs.len() - 1 {
                assert(cs.drop_last()[i] == cs[i]);
            }
        }
    }
}

pub proof fn lemma_view_nodes_ext(a: Seq<TreeNode>, b: Seq<NodeV>)
    requires
        a.len() == b.len(),
        forall|i: int| 0 <= i < a.len() ==> view_node(#[trigger] a[i]) == b[i],
    ensures
        view_nodes(a) == b,
{
    lemma_view_nodes(a);
    assert(view_nodes(a) =~= b);
}

/// One visible row: depth, path, name, directory flag, expanded flag, marker.
pub type FlatV = (int, Seq<char>, Seq<char>, bool, bool, Option<char>);

/// The rows of `n` and of everything visible under it, `n` at depth `d`.
pub open spec fn flat_of(n: NodeV, d: int) -> Seq<FlatV>
    decreases n,
{
    seq![(d, n.path, n.name, n.is_dir, n.expanded, n.git)] + if n.is_dir && n.expanded && n.children is Some {
        flat_list(n.children->0, d + 1)
    } else {
        Seq::empty()
    }
}

pub open spec fn flat_list(cs: Seq<NodeV>, d: int) -> Seq<FlatV>
    decreases cs,
{
    if cs.len() == 0 {
        Seq::empty()
    } else {
        flat_list(cs.drop_last(), d) + flat_of(cs.last(), d)
    }
}

/// Depths are held in 16 bits; rows deeper than that report the largest depth.
pub open spec fn depth16(d: int) -> int {
    if d < 0xffff { d } else { 0xffff }
}

/// Every tree shows at least its root row.
pub proof fn lemma_visible_nonempty(n: NodeV)
    ensures
        rows16(flat_of(n, 0)).len() >= 1,
{
}

pub struct FlatEntry {
    pub depth: u16,
    pub node_path: String,
    pub name: String,
    pub is_dir: bool,
    pub expanded: bool,
    pub git: Option<char>,
}

impl View for FlatEntry {
    type V = FlatV;

    open spec fn view(&self) -> FlatV {
        (self.depth as int, self.node_path@, self.name@, self.is_dir, self.expanded, self.git)
    }
}

impl Clone for FlatEntry {
    fn clone(&self) -> (r: Self)
        ensures
            r@ == self@,
    {
        FlatEntry {
            depth: self.depth,
            node_path: self.node_path.clone(),
            name: self.name.clone(),
            is_dir: self.is_dir,
            expanded: self.expanded,
            git: self.git,
        }
    }
}

/// The rows with their depths as held in a `FlatEntry`.
pub open spec fn rows16(rows: Seq<FlatV>) -> Seq<FlatV> {
    rows.map_values(|r: FlatV| (depth16(r.0), r.1, r.2, r.3, r.4, r.5))
}

pub open spec fn entry_views(v: Seq<FlatEntry>) -> Seq<FlatV> {
    v.map_values(|e: FlatEntry| e@)
}

fn flat_entry(node: &TreeNode, depth: u16) -> (r: FlatEntry)
    ensures
        r@ == (depth as int, node.path@, node.name@, node.is_dir, node.expanded, node.git),
{
    FlatEntry {
        depth,
        node_path: node.path.clone(),
        name: node.name.clone(),
        is_dir: node.is_dir,
        expanded: node.expanded,
        git: node.git,
    }
}

proof fn lemma_flat_list_push(cs: Seq<NodeV>, c: NodeV, d: int)
    ensures
        flat_list(cs.push(c), d) == flat_list(cs, d) + flat_of(c, d),
{
    assert(cs.push(c).drop_last() =~= cs);
}

proof fn lemma_rows16_add(a: Seq<FlatV>, b: Seq<FlatV>)
    ensures
        rows16(a + b) == rows16(a) + rows16(b),
{
    assert(rows16(a + b) =~= rows16(a) + rows16(b));
}

/// Depths that 16 bits cannot tell apart.
pub open spec fn same16(d1: int, d2: int) -> bool {
    d1 == d2 || (d1 >= 0xffff && d2 >= 0xffff)
}

proof fn lemma_flat_of_depth(n: NodeV, d1: int, d2: int)
    requires
        same16(d1, d2),
    ensures
        rows16(flat_of(n, d1)) == rows16(flat_of(n, d2)),
    decreases n,
{
    let head1 = seq![(d1, n.path, n.name, n.is_dir, n.expanded, n.git)];
    let head2 = seq![(d2, n.path, n.name, n.is_dir, n.expanded, n.git)];
    assert(rows16(head1) =~= rows16(head2));
    if n.is_dir && n.expanded && n.children is Some {
        lemma_flat_list_depth(n.children->0, d1 + 1, d2 + 1);
        lemma_rows16_add(head1, flat_list(n.children->0, d1 + 1));
        lemma_rows16_add(head2, flat_list(n.children->0, d2 + 1));
    } else {
        assert(flat_of(n, d1) =~= head1);
        assert(flat_of(n, d2) =~= head2);
    }
}

proof fn lemma_flat_list_depth(cs: Seq<NodeV>, d1: int, d2: int)
    requires
        same16(d1, d2),
    ensures
        rows16(flat_list(cs, d1)) == rows16(flat_list(cs, d2)),
    decreases cs,
{
    if cs.len() > 0 {
        lemma_flat_list_depth(cs.drop_last(), d1, d2);
        lemma_flat_of_depth(cs.last(), d1, d2);
        lemma_rows16_add(flat_list(cs.drop_last(), d1), flat_of(cs.last(), d1));
        lemma_rows16_add(flat_list(cs.drop_last(), d2), flat_of(cs.last(), d2));
    } else {
        assert(rows16(flat_list(cs, d1)) =~= rows16(flat_list(cs, d2)));
    }
}

/// Appends the rows of `node` (at `depth`) and of what is visible under it.
fn flatten(node: &TreeNode, depth: u16, out: &mut Vec<FlatEntry>)
    requires
        depth as int == depth16(depth as int),
    ensures
        entry_views(final(out)@) == entry_views(old(out)@) + rows16(flat_of(view_node(*node), depth as int)),
    decreases *node,
{
    let ghost start = entry_views(out@);
    let ghost nv = view_node(*node);
    let e = flat_entry(node, depth);
    out.push(e);
    proof {
        assert(entry_views(out@) =~= start + rows16(seq![(depth as int, nv.path, nv.name, nv.is_dir, nv.expanded, nv.git)]));
    }
    let ghost mid = entry_views(out@);
    if node.is_dir && node.expanded {
        match &node.children {
            Some(children) => {
                proof {
                    lemma_view_nodes(children@);
                }
                let next = depth.saturating_add(1);
                assert(next as int == depth16(depth + 1)) by {
                    assert(depth <= 0xffff);
                }
                let mut i: usize = 0;
                while i < children.len()
                    invariant
                        i <= children@.len(),
                        nv == view_node(*node),
                        node.children == Some(*children),
                        view_nodes(children@).len() == children@.len(),
                        forall|k: int| 0 <= k < children@.len() ==> #[trigger] view_nodes(children@)[k] == view_node(children@[k]),
                        next as int == depth16(depth + 1),
                        entry_views(out@) == mid + rows16(flat_list(view_nodes(children@).take(i as int), next as int)),
                    decreases children@.len() - i,
                {
                    let ghost before = entry_views(out@);
                    flatten(&children[i], next, out);
                    proof {
                        let cv = view_nodes(children@);
                        assert(cv.take(i + 1) =~= cv.take(i as int).push(cv[i as int]));
                        lemma_flat_list_push(cv.take(i as int), cv[i as int], next as int);
                        lemma_rows16_add(flat_list(cv.take(i as int), next as int), flat_of(cv[i as int], next as int));
                        assert(entry_views(out@) =~= mid + rows16(flat_list(cv.take(i + 1), next as int)));
                    }
                    i = i + 1;
                }
                proof {
                    let cv = view_nodes(children@);
                    assert(cv.take(i as int) =~= cv);
                    assert(nv.children == Some(cv));
                    lemma_flat_list_depth(cv, next as int, depth + 1);
                    lemma_rows16_add(seq![(depth as int, nv.path, nv.name, nv.is_dir, nv.expanded, nv.git)], flat_list(cv, depth + 1));
                    assert(entry_views(out@) =~= start + rows16(flat_of(nv, depth as int)));
                }
            },
            None => {
                proof {
                    assert(flat_of(nv, depth as int) =~= seq![(depth as int, nv.path, nv.name, nv.is_dir, nv.expanded, nv.git)]);
                }
            },
        }
    } else {
        proof {
            assert(flat_of(nv, depth as int) =~= seq![(depth as int, nv.path, nv.name, nv.is_dir, nv.expanded, nv.git)]);
        }
    }
}

} // verus!

verus! {

// ---------------------------------------------------------------------------
// Finding and editing nodes
// ---------------------------------------------------------------------------

/// The child positions that lead from `n` to the node whose path is `p`: `n`
/// itself if its path is `p`, otherwise the first child whose path `p` lies under
/// and that leads to it.
pub open spec fn locate(n: NodeV, p: Seq<char>) -> Option<Seq<int>>
    decreases n, 0int,
{
    if n.path == p {
        Some(Seq::empty())
    } else {
        match n.children {
            None => None,
            Some(cs) => locate_in(cs, p, 0),
        }
    }
}

pub open spec fn locate_in(cs: Seq<NodeV>, p: Seq<char>, i: int) -> Option<Seq<int>>
    decreases cs, cs.len() - i,
{
    if i < 0 || i >= cs.len() {
        None
    } else if starts_with(p, cs[i].path) && locate(cs[i], p) is Some {
        Some(seq![i] + locate(cs[i], p)->0)
    } else {
        locate_in(cs, p, i + 1)
    }
}

/// The node reached from `n` through the child positions `ip`.
pub open spec fn node_at(n: NodeV, ip: Seq<int>) -> Option<NodeV>
    decreases ip.len(),
{
    if ip.len() == 0 {
        Some(n)
    } else {
        match n.children {
            Some(cs) => if 0 <= ip[0] < cs.len() {
                node_at(cs[ip[0]], ip.skip(1))
            } else {
                None
            },
            None => None,
        }
    }
}

/// `n` with `f` applied to the node at `ip` (unchanged if there is none).
pub open spec fn modify_at(n: NodeV, ip: Seq<int>, f: spec_fn(NodeV) -> NodeV) -> NodeV
    decreases ip.len(),
{
    if ip.len() == 0 {
        f(n)
    } else {
        match n.children {
            Some(cs) => if 0 <= ip[0] < cs.len() {
                NodeV { children: Some(cs.update(ip[0], modify_at(cs[ip[0]], ip.skip(1), f))), ..n }
            } else {
                n
            },
            None => n,
        }
    }
}

pub open spec fn toggled(m: NodeV) -> NodeV {
    NodeV { expanded: !m.expanded, ..m }
}

/// `m` expanded, if it is a directory.
pub open spec fn expanded_dir(m: NodeV) -> NodeV {
    if m.is_dir {
        NodeV { expanded: true, ..m }
    } else {
        m
    }
}

/// `m` with `kids` as its entries, unless it has entries already.
pub open spec fn with_children(m: NodeV, kids: Seq<NodeV>) -> NodeV {
    if m.children is Some {
        m
    } else {
        NodeV { children: Some(kids), ..m }
    }
}

/// An edit of one node.
pub enum Edit {
    Toggle,
    ExpandDir,
    Attach(Vec<TreeNode>),
}

pub open spec fn edit_fn(e: Edit) -> spec_fn(NodeV) -> NodeV {
    match e {
        Edit::Toggle => |m: NodeV| toggled(m),
        Edit::ExpandDir => |m: NodeV| expanded_dir(m),
        Edit::Attach(kids) => |m: NodeV| with_children(m, view_nodes(kids@)),
    }
}

pub open spec fn ip_view(ip: Seq<usize>) -> Seq<int> {
    ip.map_values(|x: usize| x as int)
}

/// The markers of `m` applied to every node.
pub open spec fn with_git(n: NodeV, m: Map<Seq<char>, char>) -> NodeV
    decreases n,
{
    NodeV {
        git: if m.contains_key(n.path) { Some(m[n.path]) } else { None },
        children: match n.children {
            None => None,
            Some(cs) => Some(with_git_list(cs, m)),
        },
        ..n
    }
}

pub open spec fn with_git_list(cs: Seq<NodeV>, m: Map<Seq<char>, char>) -> Seq<NodeV>
    decreases cs,
{
    if cs.len() == 0 {
        Seq::empty()
    } else {
        with_git_list(cs.drop_last(), m).push(with_git(cs.last(), m))
    }
}

proof fn lemma_with_git_list(cs: Seq<NodeV>, m: Map<Seq<char>, char>)
    ensures
        with_git_list(cs, m).len() == cs.len(),
        forall|i: int| 0 <= i < cs.len() ==> #[trigger] with_git_list(cs, m)[i] == with_git(cs[i], m),
    decreases cs.len(),
{
    if cs.len() > 0 {
        lemma_with_git_list(cs.drop_last(), m);
        assert forall|i: int| 0 <= i < cs.len() implies #[trigger] with_git_list(cs, m)[i] == with_git(cs[i], m) by {
            if i < cs.len() - 1 {
                assert(cs.drop_last()[i] == cs[i]);
            }
        }
    }
}

proof fn lemma_locate_in_skip(cs: Seq<NodeV>, p: Seq<char>, i: int)
    requires
        0 <= i < cs.len(),
        !(starts_with(p, cs[i].path) && locate(cs[i], p) is Some),
    ensures
        locate_in(cs, p, i) == locate_in(cs, p, i + 1),
{
}

/// Where the node with path `p` sits under `node`.
fn find(node: &TreeNode, p: &Vec<char>) -> (r: Option<Vec<usize>>)
    ensures
        match r {
            None => locate(view_node(*node), p@) is None,
            Some(ip) => locate(view_node(*node), p@) == Some(ip_view(ip@)),
        },
    decreases *node,
{
    let own = chars_of(node.path.as_str());
    if compare_chars(&own, p) == 0 {
        let r: Vec<usize> = Vec::new();
        assert(ip_view(r@) =~= Seq::<int>::empty());
        return Some(r);
    }
    match &node.children {
        None => None,
        Some(children) => {
            proof {
                lemma_view_nodes(children@);
            }
            let ghost cv = view_nodes(children@);
            let mut i: usize = 0;
            while i < children.len()
                invariant
                    i <= children@.len(),
                    cv == view_nodes(children@),
                    cv.len() == children@.len(),
                    forall|k: int| 0 <= k < children@.len() ==> #[trigger] cv[k] == view_node(children@[k]),
                    locate_in(cv, p@, 0) == locate_in(cv, p@, i as int),
                    node.path@ != p@,
                    node.children == Some(*children),
                decreases children@.len() - i,
            {
                let cp = chars_of(children[i].path.as_str());
                if path_starts_with(p, &cp) {
                    proof {
                        assert(decreases_to!(*node => node.children));
                        assert(decreases_to!(node.children => node.children->0));
                        assert(node.children->0 == *children);
                        assert(decreases_to!(*children => children@));
                        assert(decreases_to!(children@ => children@[i as int]));
                    }
                    match find(&children[i], p) {
                        Some(rest) => {
                            let mut r: Vec<usize> = Vec::new();
                            r.push(i);
                            let mut rest = rest;
                            let ghost rv = rest@;
                            r.append(&mut rest);
                            proof {
                                assert(ip_view(r@) =~= seq![i as int] + ip_view(rv));
                                assert(cv[i as int].path == p@ || starts_with(p@, cv[i as int].path));
                                assert(locate_in(cv, p@, i as int) == Some(seq![i as int] + ip_view(rv)));
                                assert(view_node(*node).path != p@);
                                assert(view_node(*node).children == Some(cv));
                            }
                            return Some(r);
                        },
                        None => {},
                    }
                }
                proof {
                    lemma_locate_in_skip(cv, p@, i as int);
                }
                i = i + 1;
            }
            None
        },
    }
}

/// Applies `edit` to the node at `ip[k..]` below `node`.
fn edit_at(node: &mut TreeNode, ip: &Vec<usize>, k: usize, edit: Edit)
    requires
        k <= ip@.len(),
    ensures
        view_node(*final(node)) == modify_at(view_node(*old(node)), ip_view(ip@).skip(k as int), edit_fn(edit)),
    decreases ip@.len() - k,
{
    let ghost ipv = ip_view(ip@).skip(k as int);
    let ghost f = edit_fn(edit);
    let ghost before = view_node(*node);
    if k == ip.len() {
        match edit {
            Edit::Toggle => {
                node.expanded = !node.expanded;
            },
            Edit::ExpandDir => {
                if node.is_dir {
                    node.expanded = true;
                }
            },
            Edit::Attach(kids) => {
                if node.children.is_none() {
                    node.children = Some(kids);
                }
            },
        }
        proof {
            assert(ipv.len() == 0);
            assert(view_node(*node) =~= f(before));
        }
        return;
    }
    let i = ip[k];
    proof {
        assert(ipv[0] == i as int);
        assert(ipv.skip(1) =~= ip_view(ip@).skip(k + 1));
    }
    match &mut node.children {
        None => {},
        Some(children) => {
            proof {
                lemma_view_nodes(children@);
            }
            if i < children.len() {
                let ghost old_children = children@;
                edit_at(&mut children[i], ip, k + 1, edit);
                proof {
                    lemma_view_nodes(children@);
                    lemma_view_nodes(old_children);
                    lemma_view_nodes_ext(
                        children@,
                        view_nodes(old_children).update(i as int, view_node(children@[i as int])),
                    );
                }
            }
        },
    }
    proof {
        assert(view_node(*node) =~= modify_at(before, ipv, f));
    }
}

/// Gives every node the marker that `map` holds for its path.
fn apply_git(node: &mut TreeNode, map: &StatusMap)
    requires
        map.wf(),
    ensures
        view_node(*final(node)) == with_git(view_node(*old(node)), map@),
    decreases *old(node),
{
    let ghost before = view_node(*node);
    node.git = map.get(node.path.as_str());
    match &mut node.children {
        None => {},
        Some(children) => {
            let ghost old_children = children@;
            let ghost v0 = *children;
            assert(old(node).children == Some(v0));
            proof {
                lemma_view_nodes(old_children);
                lemma_with_git_list(view_nodes(old_children), map@);
            }
            let mut i: usize = 0;
            while i < children.len()
                invariant
                    i <= children@.len(),
                    children@.len() == old_children.len(),
                    map.wf(),
                    view_nodes(old_children).len() == old_children.len(),
                    forall|j: int| 0 <= j < old_children.len() ==> #[trigger] view_nodes(old_children)[j] == view_node(old_children[j]),
                    forall|j: int| 0 <= j < i ==> view_node(#[trigger] children@[j]) == with_git(view_node(old_children[j]), map@),
                    forall|j: int| i <= j < children@.len() ==> #[trigger] children@[j] == old_children[j],
                    v0@ == old_children,
                    old(node).children == Some(v0),
                decreases children@.len() - i,
            {
                proof {
                    assert(decreases_to!(*old(node) => old(node).children));
                    assert(decreases_to!(old(node).children => old(node).children->0));
                    assert(decreases_to!(v0 => v0@));
                    assert(decreases_to!(v0@ => v0@[i as int]));
                }
                apply_git(&mut children[i], map);
                i = i + 1;
            }
            proof {
                lemma_view_nodes_ext(children@, with_git_list(view_nodes(old_children), map@));
            }
        },
    }
    proof {
        assert(view_node(*node) =~= with_git(before, map@));
    }
}

} // verus!

verus! {

/// The node at `ip[k..]` below `node`.
fn node_ref<'a>(node: &'a TreeNode, ip: &Vec<usize>, k: usize) -> (r: Option<&'a TreeNode>)
    requires
        k <= ip@.len(),
    ensures
        match r {
            None => node_at(view_node(*node), ip_view(ip@).skip(k as int)) is None,
            Some(x) => node_at(view_node(*node), ip_view(ip@).skip(k as int)) == Some(view_node(*x)),
        },
    decreases ip@.len() - k,
{
    let ghost ipv = ip_view(ip@).skip(k as int);
    if k == ip.len() {
        return Some(node);
    }
    let i = ip[k];
    proof {
        assert(ipv[0] == i as int);
        assert(ipv.skip(1) =~= ip_view(ip@).skip(k + 1));
    }
    match &node.children {
        None => None,
        Some(children) => {
            proof {
                lemma_view_nodes(children@);
            }
            if i < children.len() {
                node_ref(&children[i], ip, k + 1)
            } else {
                None
            }
        },
    }
}

// ---------------------------------------------------------------------------
// Loading a directory
// ---------------------------------------------------------------------------

/// The directories that the explorer never lists: `.git`, `node_modules`,
/// `target` and `dist`.
pub open spec fn tree_skipped(name: Seq<char>) -> bool {
    ||| name == ".git"@
    ||| name == "node_modules"@
    ||| name == "target"@
    ||| name == "dist"@
}

/// Whether the explorer leaves out an entry named `name`.
pub fn tree_skips(name: &str) -> (r: bool)
    ensures
        r == tree_skipped(name@),
{
    let v = chars_of(name);
    crate::theme::eq_lit(&v, ".git") || crate::theme::eq_lit(&v, "node_modules") || crate::theme::eq_lit(&v, "target")
        || crate::theme::eq_lit(&v, "dist")
}

/// The entry for the child `name` of the directory `dir`, found listed with
/// `is_dir`: its path is `dir` joined with `name`; a child the explorer
/// leaves out gives `None`.
pub fn listed_entry(dir: &str, name: &str, is_dir: bool) -> (r: Option<DirEntry>)
    ensures
        r is None <==> tree_skipped(name@),
        r matches Some(e) ==> e@ == (name@, crate::paths::join(dir@, name@), is_dir),
{
    if tree_skips(name) {
        None
    } else {
        Some(DirEntry { name: String::from_str(name), path: crate::paths::join_str(dir, name), is_dir })
    }
}

/// A directory entry as read from disk.
pub struct DirEntry {
    pub name: String,
    pub path: String,
    pub is_dir: bool,
}

impl View for DirEntry {
    type V = (Seq<char>, Seq<char>, bool);

    open spec fn view(&self) -> (Seq<char>, Seq<char>, bool) {
        (self.name@, self.path@, self.is_dir)
    }
}

/// Sort key of an entry: directories first, then by lowercase name.
pub open spec fn child_key(e: (Seq<char>, Seq<char>, bool)) -> Seq<char> {
    seq![if e.2 { '\u{0}' } else { '\u{1}' }] + crate::text::unicode_lowercase(e.0)
}

pub open spec fn child_keys(es: Seq<(Seq<char>, Seq<char>, bool)>) -> Seq<Seq<char>> {
    es.map_values(|e: (Seq<char>, Seq<char>, bool)| child_key(e))
}

/// The collapsed, unloaded node for an entry, with its marker from `m`.
pub open spec fn node_of(e: (Seq<char>, Seq<char>, bool), m: Map<Seq<char>, char>) -> NodeV {
    NodeV {
        name: e.0,
        path: e.1,
        is_dir: e.2,
        expanded: false,
        children: None,
        git: if m.contains_key(e.1) { Some(m[e.1]) } else { None },
    }
}

/// `kids` are the nodes of `es`, directories first and by lowercase name, entries
/// with equal keys in the order read.
pub open spec fn loaded(es: Seq<(Seq<char>, Seq<char>, bool)>, m: Map<Seq<char>, char>, kids: Seq<NodeV>) -> bool {
    exists|order: Seq<usize>|
        #![trigger crate::sort::is_sort_order(child_keys(es), order)]
        crate::sort::is_sort_order(child_keys(es), order) && kids.len() == order.len() && forall|k: int|
            0 <= k < kids.len() ==> #[trigger] kids[k] == node_of(es[order[k] as int], m)
}

pub open spec fn entries_view(es: Seq<DirEntry>) -> Seq<(Seq<char>, Seq<char>, bool)> {
    es.map_values(|e: DirEntry| e@)
}

fn load_nodes(entries: &Vec<DirEntry>, map: &StatusMap) -> (r: Vec<TreeNode>)
    requires
        map.wf(),
    ensures
        loaded(entries_view(entries@), map@, view_nodes(r@)),
{
    let ghost es = entries_view(entries@);
    let mut keys: Vec<Vec<char>> = Vec::new();
    let mut i: usize = 0;
    while i < entries.len()
        invariant
            i <= entries@.len(),
            es == entries_view(entries@),
            keys@.len() == i,
            forall|j: int| 0 <= j < i ==> #[trigger] keys@[j]@ == child_key(es[j]),
        decreases entries@.len() - i,
    {
        let lower = crate::text::to_lowercase(entries[i].name.as_str());
        let mut key: Vec<char> = Vec::new();
        key.push(if entries[i].is_dir { '\u{0}' } else { '\u{1}' });
        let lc = chars_of(lower.as_str());
        let mut k: usize = 0;
        while k < lc.len()
            invariant
                k <= lc@.len(),
                key@ == seq![if entries@[i as int].is_dir { '\u{0}' } else { '\u{1}' }] + lc@.take(k as int),
            decreases lc@.len() - k,
        {
            key.push(lc[k]);
            k = k + 1;
            assert(key@ =~= seq![if entries@[i as int].is_dir { '\u{0}' } else { '\u{1}' }] + lc@.take(k as int));
        }
        assert(lc@.take(k as int) =~= lc@);
        keys.push(key);
        i = i + 1;
    }
    let order = crate::sort::sort_order(&keys);
    let ghost ks = keys@.map_values(|k: Vec<char>| k@);
    assert(ks =~= child_keys(es));
    let mut out: Vec<TreeNode> = Vec::new();
    let mut j: usize = 0;
    while j < order.len()
        invariant
            j <= order@.len(),
            es == entries_view(entries@),
            crate::sort::covers(order@, 0, entries@.len() as int),
            map.wf(),
            out@.len() == j,
            forall|x: int| 0 <= x < j ==> view_node(#[trigger] out@[x]) == node_of(es[order@[x] as int], map@),
        decreases order@.len() - j,
    {
        let e = &entries[order[j]];
        let node = TreeNode {
            name: e.name.clone(),
            path: e.path.clone(),
            is_dir: e.is_dir,
            expanded: false,
            children: None,
            git: map.get(e.path.as_str()),
        };
        proof {
            assert(view_node(node) =~= node_of(es[order@[j as int] as int], map@));
        }
        out.push(node);
        j = j + 1;
    }
    proof {
        lemma_view_nodes(out@);
        assert forall|x: int| 0 <= x < view_nodes(out@).len() implies #[trigger] view_nodes(out@)[x] == node_of(es[order@[x] as int], map@) by {}
        assert(crate::sort::is_sort_order(child_keys(es), order@));
    }
    out
}

} // verus!

verus! {

// ---------------------------------------------------------------------------
// The explorer
// ---------------------------------------------------------------------------

/// The selection after the rows were rebuilt: kept, or moved onto the last row
/// when it fell past the end.
pub open spec fn clamp_sel(sel: int, len: int) -> int {
    if sel >= len && len > 0 {
        len - 1
    } else {
        sel
    }
}

/// `x` clamped into `[lo, hi]`.
pub open spec fn clamp(x: int, lo: int, hi: int) -> int {
    if x < lo {
        lo
    } else if x > hi {
        hi
    } else {
        x
    }
}

/// The name the explorer shows for the workspace root.
pub open spec fn root_name(root: Seq<char>) -> Seq<char> {
    match crate::paths::file_name(root) {
        Some(n) => n,
        None => root,
    }
}

/// Expands the directory at path `p`, if the tree holds one there.
pub open spec fn expand_dir_at(n: NodeV, p: Seq<char>) -> NodeV {
    match locate(n, p) {
        Some(ip) => modify_at(n, ip, |m: NodeV| expanded_dir(m)),
        None => n,
    }
}

/// The paths from `base` through each further component of `rel`.
pub open spec fn cursors(base: Seq<char>, rel: Seq<char>) -> Seq<Seq<char>>
    decreases rel.len(),
{
    if rel.len() == 0 {
        Seq::empty()
    } else if rel[0] == '/' {
        cursors(base, rel.drop_first())
    } else {
        let k = match crate::text::first_index_of(rel, '/') {
            None => rel.len() as int,
            Some(k) => k,
        };
        proof {
            crate::text::lemma_first_index_of(rel, '/');
        }
        let c = crate::paths::join(base, rel.take(k));
        seq![c] + cursors(c, rel.skip(k))
    }
}

/// Expands, in order, each directory named in `ps`.
pub open spec fn reveal_fold(n: NodeV, ps: Seq<Seq<char>>) -> NodeV
    decreases ps.len(),
{
    if ps.len() == 0 {
        n
    } else {
        reveal_fold(expand_dir_at(n, ps[0]), ps.drop_first())
    }
}

/// Position of the first row showing `p`.
pub open spec fn row_of(rows: Seq<FlatV>, p: Seq<char>) -> Option<int>
    decreases rows.len(),
{
    if rows.len() == 0 {
        None
    } else if rows[0].1 == p {
        Some(0)
    } else {
        match row_of(rows.drop_first(), p) {
            None => None,
            Some(i) => Some(i + 1),
        }
    }
}

pub struct FileTree {
    pub root: TreeNode,
    pub flat: Vec<FlatEntry>,
    pub selected: usize,
    pub scroll: usize,
    /// Markers by path, applied to nodes as they load.
    pub git: StatusMap,
}

impl FileTree {
    pub open spec fn root_view(&self) -> NodeV {
        view_node(self.root)
    }

    /// The rows held in `flat`.
    pub open spec fn rows(&self) -> Seq<FlatV> {
        entry_views(self.flat@)
    }

    /// The rows that the current tree shows.
    pub open spec fn visible(&self) -> Seq<FlatV> {
        rows16(flat_of(self.root_view(), 0))
    }

    pub open spec fn flat_rebuilt(old: Self, new: Self) -> bool {
        &&& (new.root == old.root)
        &&& (new.git == old.git)
        &&& (new.scroll == old.scroll)
        &&& (new.rows() == new.visible())
        &&& (new.selected == clamp_sel(old.selected as int, new.rows().len() as int))
    }

    pub open spec fn git_set(old: Self, new: Self, git: StatusMap) -> bool {
        &&& (new.git@ == git@)
        &&& (new.git.wf())
        &&& (new.root_view() == with_git(old.root_view(), git@))
        &&& (new.rows() == new.visible())
        &&& (new.selected == clamp_sel(old.selected as int, new.rows().len() as int))
        &&& (new.scroll == old.scroll)
    }

    pub open spec fn children_attached(old: Self, new: Self, path: Seq<char>, entries: Seq<DirEntry>) -> bool {
        &&& (new.git == old.git)
        &&& (new.flat == old.flat)
        &&& (new.selected == old.selected)
        &&& (new.scroll == old.scroll)
        &&& (match locate(old.root_view(), path) {
                None => new.root_view() == old.root_view(),
                Some(ip) => exists|kids: Seq<NodeV>|
                    #![trigger loaded(entries_view(entries), old.git@, kids)]
                    loaded(entries_view(entries), old.git@, kids) && new.root_view()
                        == modify_at(old.root_view(), ip, |m: NodeV| with_children(m, kids)),
            })
    }

    pub open spec fn selection_toggled(old: Self, new: Self, r: Option<String>) -> bool {
        &&& (new.git == old.git)
        &&& (new.scroll == old.scroll)
        &&& (old.selected >= old.flat@.len() ==> r is None && new.root == old.root
                && new.flat == old.flat && new.selected == old.selected)
        &&& (old.selected < old.flat@.len() && !old.rows()[old.selected as int].3 ==> (r
                matches Some(p) && p@ == old.rows()[old.selected as int].1) && new.root
                == old.root && new.flat == old.flat && new.selected == old.selected)
        &&& (old.selected < old.flat@.len() && old.rows()[old.selected as int].3 ==> {
                &&& r is None
                &&& new.root_view() == match locate(
                    old.root_view(),
                    old.rows()[old.selected as int].1,
                ) {
                    Some(ip) => modify_at(old.root_view(), ip, |m: NodeV| toggled(m)),
                    None => old.root_view(),
                }
                &&& new.rows() == new.visible()
                &&& new.selected == clamp_sel(old.selected as int, new.rows().len() as int)
            })
    }

    pub open spec fn opened_at(old: Self, new: Self, index: usize, r: Option<String>) -> bool {
        &&& (index >= old.flat@.len() ==> r is None && new.root == old.root
                && new.flat == old.flat && new.selected == old.selected)
        &&& (index < old.flat@.len() && !old.rows()[index as int].3 ==> (r matches Some(p)
                && p@ == old.rows()[index as int].1) && new.root == old.root
                && new.flat == old.flat && new.selected == index)
        &&& (index < old.flat@.len() && old.rows()[index as int].3 ==> {
                &&& r is None
                &&& new.root_view() == match locate(old.root_view(), old.rows()[index as int].1) {
                    Some(ip) => modify_at(old.root_view(), ip, |m: NodeV| toggled(m)),
                    None => old.root_view(),
                }
                &&& new.rows() == new.visible()
                &&& new.selected == clamp_sel(index as int, new.rows().len() as int)
            })
        &&& (new.git == old.git)
        &&& (new.scroll == old.scroll)
    }

    pub open spec fn moved(old: Self, new: Self, delta: isize) -> bool {
        &&& (new.root == old.root)
        &&& (new.flat == old.flat)
        &&& (new.scroll == old.scroll)
        &&& (new.git == old.git)
        &&& (new.selected == if old.flat@.len() == 0 {
                old.selected as int
            } else {
                clamp(old.selected + delta, 0, old.flat@.len() - 1)
            })
    }

    pub open spec fn scrolled(old: Self, new: Self, delta: isize, height: usize) -> bool {
        &&& (new.root == old.root)
        &&& (new.flat == old.flat)
        &&& (new.git == old.git)
        &&& ((old.flat@.len() == 0 || height == 0) ==> new.scroll == old.scroll
                && new.selected == old.selected)
        &&& ((old.flat@.len() > 0 && height > 0) ==> {
                let max_scroll = if old.flat@.len() > height { old.flat@.len() - height } else { 0 };
                let s = clamp(old.scroll + delta, 0, max_scroll);
                &&& new.scroll == s
                &&& new.selected == if old.selected < s {
                    s
                } else if old.selected >= s + height {
                    s + height - 1
                } else {
                    old.selected as int
                }
            })
    }

    pub open spec fn made_visible(old: Self, new: Self, height: usize) -> bool {
        &&& (new.root == old.root)
        &&& (new.flat == old.flat)
        &&& (new.git == old.git)
        &&& (new.selected == old.selected)
        &&& ((height == 0 || old.flat@.len() == 0) ==> new.scroll == old.scroll)
        &&& ((height > 0 && old.flat@.len() > 0) ==> {
                let max_scroll = if old.flat@.len() > height { old.flat@.len() - height } else { 0 };
                let s = if old.selected < old.scroll {
                    old.selected as int
                } else if old.selected >= old.scroll + height {
                    if old.selected + 1 > height { old.selected + 1 - height } else { 0 }
                } else {
                    old.scroll as int
                };
                new.scroll == if s < max_scroll { s } else { max_scroll }
            })
        &&& ((height > 0 && old.selected < old.flat@.len()) ==> new.scroll <= new.selected
                < new.scroll + height)
    }

    pub open spec fn revealed(old: Self, new: Self, path: Seq<char>) -> bool {
        &&& (new.git == old.git)
        &&& (new.scroll == old.scroll)
        &&& (crate::paths::strip_prefix(path, old.root.path@) is None ==> new.root == old.root
                && new.flat == old.flat && new.selected == old.selected)
        &&& (crate::paths::strip_prefix(path, old.root.path@) matches Some(rel) ==> {
                &&& new.root_view() == reveal_fold(old.root_view(), cursors(old.root.path@, rel))
                &&& new.rows() == new.visible()
                &&& new.selected == match row_of(new.rows(), path) {
                    Some(i) => i,
                    None => clamp_sel(old.selected as int, new.rows().len() as int),
                }
            })
    }

    /// The explorer of the workspace `root`: the root expanded with its entries
    /// `entries` loaded, `git` as markers, the first row selected.
    pub fn new(root: String, git: StatusMap, entries: Vec<DirEntry>) -> (r: Self)
        requires
            git.wf(),
        ensures
            r.git@ == git@,
            r.git.wf(),
            r.root_view().name == root_name(root@),
            r.root_view().path == root@,
            r.root_view().is_dir,
            r.root_view().expanded,
            r.root_view().git == if git@.contains_key(root@) { Some(git@[root@]) } else { None::<char> },
            r.root_view().children matches Some(kids) && loaded(entries_view(entries@), git@, kids),
            r.rows() == r.visible(),
            r.selected == 0,
            r.scroll == 0,
    {
        let rc = chars_of(root.as_str());
        let name = match crate::paths::path_file_name(&rc) {
            Some(n) => n,
            None => root.clone(),
        };
        let git_char = git.get(root.as_str());
        let kids = load_nodes(&entries, &git);
        let mut tree = FileTree {
            root: TreeNode { name, path: root, is_dir: true, expanded: true, children: Some(kids), git: git_char },
            flat: Vec::new(),
            selected: 0,
            scroll: 0,
            git,
        };
        tree.rebuild_flat();
        tree
    }

    /// Rebuilds the rows from the tree and keeps the selection on a row.
    pub fn rebuild_flat(&mut self)
        ensures
            Self::flat_rebuilt(*old(self), *final(self)),
    {
        let mut out: Vec<FlatEntry> = Vec::new();
        flatten(&self.root, 0, &mut out);
        assert(entry_views(out@) =~= self.visible());
        self.flat = out;
        if self.selected >= self.flat.len() && self.flat.len() > 0 {
            self.selected = self.flat.len() - 1;
        }
    }

    /// Replaces the markers and applies them to every node.
    pub fn set_git(&mut self, git: StatusMap)
        requires
            git.wf(),
        ensures
            Self::git_set(*old(self), *final(self), git),
    {
        self.git = git;
        apply_git(&mut self.root, &self.git);
        self.rebuild_flat();
    }

    /// Whether the node at `path` is a directory whose entries are not loaded.
    pub fn needs_children(&self, path: &str) -> (r: bool)
        ensures
            r == (locate(self.root_view(), path@) matches Some(ip) && node_at(self.root_view(), ip)
                matches Some(x) && x.children is None),
    {
        let p = chars_of(path);
        match find(&self.root, &p) {
            None => false,
            Some(ip) => {
                proof {
                    assert(ip_view(ip@).skip(0) =~= ip_view(ip@));
                }
                match node_ref(&self.root, &ip, 0) {
                    None => false,
                    Some(x) => x.children.is_none(),
                }
            },
        }
    }

    /// Loads `entries` as the entries of the node at `path`, unless it has them.
    pub fn attach_children(&mut self, path: &str, entries: Vec<DirEntry>)
        requires
            old(self).git.wf(),
        ensures
            Self::children_attached(*old(self), *final(self), path@, entries@),
    {
        let p = chars_of(path);
        match find(&self.root, &p) {
            None => {},
            Some(ip) => {
                let kids = load_nodes(&entries, &self.git);
                let ghost kv = view_nodes(kids@);
                edit_at(&mut self.root, &ip, 0, Edit::Attach(kids));
                proof {
                    assert(ip_view(ip@).skip(0) =~= ip_view(ip@));
                    assert(edit_fn(Edit::Attach(kids)) =~= |m: NodeV| with_children(m, kv));
                }
            },
        }
    }

    /// Opens or closes the selected directory, or gives the selected file's path.
    pub fn toggle_selected(&mut self) -> (r: Option<String>)
        ensures
            Self::selection_toggled(*old(self), *final(self), r),
    {
        if self.selected >= self.flat.len() {
            return None;
        }
        let entry = self.flat[self.selected].clone();
        if entry.is_dir {
            let p = chars_of(entry.node_path.as_str());
            match find(&self.root, &p) {
                None => {},
                Some(ip) => {
                    edit_at(&mut self.root, &ip, 0, Edit::Toggle);
                    proof {
                        assert(ip_view(ip@).skip(0) =~= ip_view(ip@));
                        assert(edit_fn(Edit::Toggle) =~= |m: NodeV| toggled(m));
                    }
                },
            }
            self.rebuild_flat();
            None
        } else {
            Some(entry.node_path)
        }
    }

    /// Selects row `index` and toggles it, as a click on that row does.
    pub fn open_at_flat_index(&mut self, index: usize) -> (r: Option<String>)
        ensures
            Self::opened_at(*old(self), *final(self), index, r),
    {
        if index >= self.flat.len() {
            return None;
        }
        self.selected = index;
        self.toggle_selected()
    }

    /// Moves the selection by `delta` rows, staying on the rows.
    pub fn move_sel(&mut self, delta: isize)
        requires
            old(self).flat@.len() <= isize::MAX,
            old(self).selected <= isize::MAX,
            isize::MIN <= old(self).selected + delta <= isize::MAX,
        ensures
            Self::moved(*old(self), *final(self), delta),
    {
        if self.flat.len() == 0 {
            return;
        }
        let len = self.flat.len() as isize;
        let next = self.selected as isize + delta;
        let clamped = if next < 0 {
            0
        } else if next > len - 1 {
            len - 1
        } else {
            next
        };
        self.selected = clamped as usize;
    }

    /// Scrolls the view by `delta` rows within `[0, len - height]` and pulls
    /// the selection into the `height` visible rows.
    pub fn scroll_by(&mut self, delta: isize, height: usize)
        requires
            old(self).flat@.len() <= isize::MAX,
            old(self).scroll <= isize::MAX,
            isize::MIN <= old(self).scroll + delta <= isize::MAX,
        ensures
            Self::scrolled(*old(self), *final(self), delta, height),
    {
        if self.flat.len() == 0 || height == 0 {
            return;
        }
        let max_scroll = if self.flat.len() > height { self.flat.len() - height } else { 0 };
        let next = self.scroll as isize + delta;
        let clamped = if next < 0 {
            0
        } else if next > max_scroll as isize {
            max_scroll as isize
        } else {
            next
        };
        self.scroll = clamped as usize;
        if self.selected < self.scroll {
            self.selected = self.scroll;
        } else if self.selected >= self.scroll + height {
            self.selected = self.scroll + height - 1;
        }
    }

    /// Scrolls so that the selected row is among the `height` visible rows.
    pub fn ensure_visible(&mut self, height: usize)
        requires
            old(self).scroll + height <= usize::MAX,
            old(self).selected < usize::MAX,
        ensures
            Self::made_visible(*old(self), *final(self), height),
    {
        if height == 0 || self.flat.len() == 0 {
            return;
        }
        let max_scroll = if self.flat.len() > height { self.flat.len() - height } else { 0 };
        if self.selected < self.scroll {
            self.scroll = self.selected;
        } else if self.selected >= self.scroll + height {
            self.scroll = if self.selected + 1 > height { self.selected + 1 - height } else { 0 };
        }
        if self.scroll > max_scroll {
            self.scroll = max_scroll;
        }
    }

    /// Expands the directories on the way from the root to `path`, rebuilds the
    /// rows and selects the row of `path` if it is shown; a path outside the
    /// workspace changes nothing.
    pub fn reveal_path(&mut self, path: &str)
        ensures
            Self::revealed(*old(self), *final(self), path@),
    {
        let pc = chars_of(path);
        let rc = chars_of(self.root.path.as_str());
        let rel = match crate::paths::path_strip_prefix(&pc, &rc) {
            None => {
                assert(self.git == old(self).git);
                return;
            },
            Some(r) => r,
        };
        let ghost target = reveal_fold(view_node(self.root), cursors(rc@, rel@));
        let mut cursor = rc.clone();
        let mut i: usize = 0;
        assert(rel@.skip(0) =~= rel@);
        while i < rel.len()
            invariant
                i <= rel@.len(),
                reveal_fold(view_node(self.root), cursors(cursor@, rel@.skip(i as int))) == target,
                self.git == old(self).git,
                self.scroll == old(self).scroll,
                self.selected == old(self).selected,
            decreases rel@.len() - i,
        {
            let ghost rest = rel@.skip(i as int);
            if rel[i] == '/' {
                proof {
                    assert(rest[0] == rel@[i as int]);
                    assert(rest.drop_first() =~= rel@.skip(i + 1));
                }
                i = i + 1;
            } else {
                let mut k = i;
                while k < rel.len() && rel[k] != '/'
                    invariant
                        i <= k <= rel@.len(),
                        forall|x: int| i <= x < k ==> rel@[x] != '/',
                    decreases rel@.len() - k,
                {
                    k = k + 1;
                }
                let mut comp: Vec<char> = Vec::new();
                let mut x = i;
                while x < k
                    invariant
                        i <= x <= k <= rel@.len(),
                        comp@ == rel@.subrange(i as int, x as int),
                    decreases k - x,
                {
                    comp.push(rel[x]);
                    x = x + 1;
                    assert(comp@ =~= rel@.subrange(i as int, x as int));
                }
                let next = crate::paths::path_join(&cursor, &comp);
                let ghost before = view_node(self.root);
                match find(&self.root, &next) {
                    None => {},
                    Some(ip) => {
                        edit_at(&mut self.root, &ip, 0, Edit::ExpandDir);
                        proof {
                            assert(ip_view(ip@).skip(0) =~= ip_view(ip@));
                            assert(edit_fn(Edit::ExpandDir) =~= |m: NodeV| expanded_dir(m));
                        }
                    },
                }
                proof {
                    assert(view_node(self.root) == expand_dir_at(before, next@));
                    assert forall|y: int| 0 <= y < k - i implies #[trigger] rest[y] != '/' by {
                        assert(rest[y] == rel@[i + y]);
                    }
                    if k < rel@.len() {
                        assert(rest[k - i] == rel@[k as int]);
                    }
                    crate::text::lemma_first_index_of_is(rest, '/', k - i);
                    assert(rest[0] == rel@[i as int]);
                    assert(rest.take(k - i) =~= comp@);
                    assert(rest.skip(k - i) =~= rel@.skip(k as int));
                    let cs = cursors(cursor@, rest);
                    assert(cs == seq![next@] + cursors(next@, rel@.skip(k as int)));
                    assert(cs[0] == next@);
                    assert(cs.drop_first() =~= cursors(next@, rel@.skip(k as int)));
                }
                cursor = next;
                i = k;
            }
        }
        proof {
            assert(rel@.skip(i as int) =~= Seq::<char>::empty());
        }
        self.rebuild_flat();
        let mut j: usize = 0;
        let ghost rows = self.rows();
        assert(rows.skip(0) =~= rows);
        while j < self.flat.len()
            invariant
                j <= self.flat@.len(),
                rows == self.rows(),
                self.git == old(self).git,
                self.scroll == old(self).scroll,
                self.root_view() == target,
                target == reveal_fold(old(self).root_view(), cursors(old(self).root.path@, rel@)),
                crate::paths::strip_prefix(path@, old(self).root.path@) == Some(rel@),
                pc@ == path@,
                self.rows() == self.visible(),
                self.selected == clamp_sel(old(self).selected as int, self.rows().len() as int),
                row_of(rows, path@) == match row_of(rows.skip(j as int), path@) {
                    Some(y) => Some(y + j),
                    None => None,
                },
            decreases self.flat@.len() - j,
        {
            let here = chars_of(self.flat[j].node_path.as_str());
            if compare_chars(&here, &pc) == 0 {
                proof {
                    assert(rows.skip(j as int)[0] == rows[j as int]);
                    assert(rows[j as int].1 == path@);
                    assert(row_of(rows.skip(j as int), path@) == Some(0int));
                }
                self.selected = j;
                return;
            }
            proof {
                assert(rows.skip(j as int)[0] == rows[j as int]);
                assert(rows.skip(j as int).drop_first() =~= rows.skip(j + 1));
            }
            j = j + 1;
        }
        proof {
            assert(rows.skip(j as int) =~= Seq::<FlatV>::empty());
        }
    }
}


/// A row found by `row_of` is one of the rows.
pub proof fn lemma_row_of_bound(rows: Seq<FlatV>, p: Seq<char>)
    ensures
        row_of(rows, p) matches Some(i) ==> 0 <= i < rows.len(),
    decreases rows.len(),
{
    if rows.len() > 0 && rows[0].1 != p {
        lemma_row_of_bound(rows.drop_first(), p);
    }
}

/// Whether `p` names a directory of `n` whose entries are not loaded.
pub open spec fn unloaded_dir(n: NodeV, p: Seq<char>) -> bool {
    locate(n, p) matches Some(ip) && node_at(n, ip) matches Some(x) && x.is_dir && x.children is None
}

/// The paths from `base` through each further component of `rel`.
pub fn cursor_paths(base: &Vec<char>, rel: &Vec<char>) -> (r: Vec<Vec<char>>)
    ensures
        r@.map_values(|c: Vec<char>| c@) == cursors(base@, rel@),
{
    let mut out: Vec<Vec<char>> = Vec::new();
    let mut cursor = base.clone();
    let mut i: usize = 0;
    let ghost all = cursors(base@, rel@);
    assert(rel@.skip(0) =~= rel@);
    assert(out@.map_values(|c: Vec<char>| c@) =~= Seq::<Seq<char>>::empty());
    while i < rel.len()
        invariant
            i <= rel@.len(),
            all == out@.map_values(|c: Vec<char>| c@) + cursors(cursor@, rel@.skip(i as int)),
        decreases rel@.len() - i,
    {
        let ghost rest = rel@.skip(i as int);
        if rel[i] == '/' {
            proof {
                assert(rest[0] == rel@[i as int]);
                assert(rest.drop_first() =~= rel@.skip(i + 1));
            }
            i = i + 1;
        } else {
            let mut k = i;
            while k < rel.len() && rel[k] != '/'
                invariant
                    i <= k <= rel@.len(),
                    forall|x: int| i <= x < k ==> rel@[x] != '/',
                decreases rel@.len() - k,
            {
                k = k + 1;
            }
            let mut comp: Vec<char> = Vec::new();
            let mut x = i;
            while x < k
                invariant
                    i <= x <= k <= rel@.len(),
                    comp@ == rel@.subrange(i as int, x as int),
                decreases k - x,
            {
                comp.push(rel[x]);
                x = x + 1;
                assert(comp@ =~= rel@.subrange(i as int, x as int));
            }
            let next = crate::paths::path_join(&cursor, &comp);
            proof {
                assert forall|y: int| 0 <= y < k - i implies #[trigger] rest[y] != '/' by {
                    assert(rest[y] == rel@[i + y]);
                }
                if k < rel@.len() {
                    assert(rest[k - i] == rel@[k as int]);
                }
                crate::text::lemma_first_index_of_is(rest, '/', k - i);
                assert(rest[0] == rel@[i as int]);
                assert(rest.take(k - i) =~= comp@);
                assert(rest.skip(k - i) =~= rel@.skip(k as int));
                assert(cursors(cursor@, rest) == seq![next@] + cursors(next@, rel@.skip(k as int)));
            }
            let ghost before = out@.map_values(|c: Vec<char>| c@);
            out.push(next.clone());
            proof {
                assert(out@.map_values(|c: Vec<char>| c@) =~= before.push(next@));
                assert(before + (seq![next@] + cursors(next@, rel@.skip(k as int))) =~= before.push(next@)
                    + cursors(next@, rel@.skip(k as int)));
            }
            cursor = next;
            i = k;
        }
    }
    proof {
        assert(rel@.skip(i as int) =~= Seq::<char>::empty());
        assert(all =~= out@.map_values(|c: Vec<char>| c@));
    }
    out
}

impl FileTree {
    /// Whether `p` names a directory whose entries are not loaded.
    pub fn is_unloaded_dir(&self, p: &Vec<char>) -> (r: bool)
        ensures
            r == unloaded_dir(self.root_view(), p@),
    {
        match find(&self.root, p) {
            None => false,
            Some(ip) => {
                proof {
                    assert(ip_view(ip@).skip(0) =~= ip_view(ip@));
                }
                match node_ref(&self.root, &ip, 0) {
                    None => false,
                    Some(x) => x.is_dir && x.children.is_none(),
                }
            },
        }
    }

    /// The first directory on the way from the root to `path` whose entries
    /// are not loaded; `None` when all are, or `path` is outside the tree.
    pub fn first_unloaded_on(&self, path: &str) -> (r: Option<String>)
        ensures
            crate::paths::strip_prefix(path@, self.root.path@) is None ==> r is None,
            crate::paths::strip_prefix(path@, self.root.path@) matches Some(rel) ==> {
                let cs = cursors(self.root.path@, rel);
                &&& r matches Some(d) ==> cs.contains(d@) && unloaded_dir(self.root_view(), d@)
                &&& r is None ==> forall|k: int| 0 <= k < cs.len() ==> !unloaded_dir(self.root_view(), #[trigger] cs[k])
            },
    {
        let pc = chars_of(path);
        let rc = chars_of(self.root.path.as_str());
        let rel = match crate::paths::path_strip_prefix(&pc, &rc) {
            None => return None,
            Some(r) => r,
        };
        let cs = cursor_paths(&rc, &rel);
        let ghost csv = cs@.map_values(|c: Vec<char>| c@);
        let mut k: usize = 0;
        while k < cs.len()
            invariant
                k <= cs@.len(),
                csv == cs@.map_values(|c: Vec<char>| c@),
                csv == cursors(rc@, rel@),
                rc@ == self.root.path@,
                crate::paths::strip_prefix(path@, self.root.path@) == Some(rel@),
                forall|j: int| 0 <= j < k ==> !unloaded_dir(self.root_view(), #[trigger] csv[j]),
            decreases cs@.len() - k,
        {
            if self.is_unloaded_dir(&cs[k]) {
                let d = crate::text::string_of(&cs[k]);
                proof {
                    assert(csv[k as int] == cs@[k as int]@);
                    assert(csv.contains(d@));
                }
                return Some(d);
            }
            assert(csv[k as int] == cs@[k as int]@);
            k = k + 1;
        }
        None
    }
}

// ---------------------------------------------------------------------------
// Laws
// ---------------------------------------------------------------------------

/// Opening and then closing a directory (or the reverse) gives back the tree.
pub proof fn law_toggle_twice(n: NodeV, ip: Seq<int>)
    ensures
        modify_at(modify_at(n, ip, |m: NodeV| toggled(m)), ip, |m: NodeV| toggled(m)) == n,
    decreases ip.len(),
{
    let f = |m: NodeV| toggled(m);
    if ip.len() == 0 {
        assert(toggled(toggled(n)) == n);
    } else {
        match n.children {
            Some(cs) => {
                if 0 <= ip[0] < cs.len() {
                    law_toggle_twice(cs[ip[0]], ip.skip(1));
                    let once = modify_at(n, ip, f);
                    assert(once.children == Some(cs.update(ip[0], modify_at(cs[ip[0]], ip.skip(1), f))));
                    assert(cs.update(ip[0], modify_at(cs[ip[0]], ip.skip(1), f)).update(
                        ip[0],
                        modify_at(modify_at(cs[ip[0]], ip.skip(1), f), ip.skip(1), f),
                    ) =~= cs);
                }
            },
            None => {},
        }
    }
}

/// Toggling only changes an expanded flag, so every path is found where it was.
pub proof fn law_toggle_keeps_paths(n: NodeV, ip: Seq<int>, p: Seq<char>)
    ensures
        locate(modify_at(n, ip, |m: NodeV| toggled(m)), p) == locate(n, p),
{
    lemma_toggle_same_shape(n, ip);
    lemma_same_shape_locate(n, modify_at(n, ip, |m: NodeV| toggled(m)), p);
}

/// Same paths and child lists, in the same places.
pub open spec fn same_shape(a: NodeV, b: NodeV) -> bool
    decreases a,
{
    &&& a.path == b.path
    &&& match (a.children, b.children) {
        (None, None) => true,
        (Some(x), Some(y)) => same_shape_list(x, y),
        _ => false,
    }
}

pub open spec fn same_shape_list(x: Seq<NodeV>, y: Seq<NodeV>) -> bool
    decreases x,
{
    if x.len() == 0 {
        y.len() == 0
    } else {
        y.len() == x.len() && same_shape_list(x.drop_last(), y.drop_last()) && same_shape(x.last(), y.last())
    }
}

proof fn lemma_same_shape_list_index(x: Seq<NodeV>, y: Seq<NodeV>)
    ensures
        same_shape_list(x, y) <==> (x.len() == y.len() && forall|i: int| 0 <= i < x.len() ==> same_shape(#[trigger] x[i], y[i])),
    decreases x.len(),
{
    if x.len() > 0 && y.len() == x.len() {
        lemma_same_shape_list_index(x.drop_last(), y.drop_last());
        if forall|i: int| 0 <= i < x.len() ==> same_shape(#[trigger] x[i], y[i]) {
            assert forall|i: int| 0 <= i < x.drop_last().len() implies same_shape(#[trigger] x.drop_last()[i], y.drop_last()[i]) by {
                assert(x.drop_last()[i] == x[i]);
                assert(y.drop_last()[i] == y[i]);
            }
        }
        if same_shape_list(x, y) {
            assert forall|i: int| 0 <= i < x.len() implies same_shape(#[trigger] x[i], y[i]) by {
                if i < x.len() - 1 {
                    assert(x.drop_last()[i] == x[i]);
                    assert(y.drop_last()[i] == y[i]);
                }
            }
        }
    }
}

proof fn lemma_same_shape_refl(a: NodeV)
    ensures
        same_shape(a, a),
    decreases a,
{
    if let Some(x) = a.children {
        assert forall|i: int| 0 <= i < x.len() implies same_shape(#[trigger] x[i], x[i]) by {
            lemma_same_shape_refl(x[i]);
        }
        lemma_same_shape_list_index(x, x);
    }
}

proof fn lemma_toggle_same_shape(n: NodeV, ip: Seq<int>)
    ensures
        same_shape(n, modify_at(n, ip, |m: NodeV| toggled(m))),
    decreases ip.len(),
{
    let f = |m: NodeV| toggled(m);
    if ip.len() == 0 {
        lemma_same_shape_refl(n);
        assert(toggled(n).children == n.children);
        if let Some(x) = n.children {
            lemma_same_shape_list_index(x, x);
        }
    } else {
        match n.children {
            Some(cs) => {
                if 0 <= ip[0] < cs.len() {
                    lemma_toggle_same_shape(cs[ip[0]], ip.skip(1));
                    let ys = cs.update(ip[0], modify_at(cs[ip[0]], ip.skip(1), f));
                    assert forall|i: int| 0 <= i < cs.len() implies same_shape(#[trigger] cs[i], ys[i]) by {
                        if i != ip[0] {
                            lemma_same_shape_refl(cs[i]);
                        }
                    }
                    lemma_same_shape_list_index(cs, ys);
                } else {
                    lemma_same_shape_refl(n);
                }
            },
            None => {
                lemma_same_shape_refl(n);
            },
        }
    }
}

proof fn lemma_same_shape_locate(a: NodeV, b: NodeV, p: Seq<char>)
    requires
        same_shape(a, b),
    ensures
        locate(a, p) == locate(b, p),
    decreases a, 1int,
{
    if a.path != p {
        if let (Some(x), Some(y)) = (a.children, b.children) {
            lemma_same_shape_list_index(x, y);
            lemma_same_shape_locate_in(x, y, p, 0);
        }
    }
}

proof fn lemma_same_shape_locate_in(x: Seq<NodeV>, y: Seq<NodeV>, p: Seq<char>, i: int)
    requires
        x.len() == y.len(),
        forall|k: int| 0 <= k < x.len() ==> same_shape(#[trigger] x[k], y[k]),
    ensures
        locate_in(x, p, i) == locate_in(y, p, i),
    decreases x, x.len() - i,
{
    if 0 <= i < x.len() {
        assert(same_shape(x[i], y[i]));
        lemma_same_shape_locate(x[i], y[i], p);
        lemma_same_shape_locate_in(x, y, p, i + 1);
    }
}

} // verus!

verus! {

/// Keeping the selection in view a second time changes nothing: the first
/// time already brought it into view.
pub proof fn law_ensure_visible_idempotent(t0: FileTree, t1: FileTree, t2: FileTree, height: usize)
    requires
        FileTree::made_visible(t0, t1, height),
        FileTree::made_visible(t1, t2, height),
    ensures
        t2 == t1,
{
}

} // verus!

verus! {

/// Toggling the selected directory and then toggling it again, while the
/// selection still names that directory, gives back the tree, its rows and
/// its selection.
pub proof fn law_toggle_back_restores_rows(
    t0: FileTree,
    t1: FileTree,
    t2: FileTree,
    p1: Option<String>,
    p2: Option<String>,
)
    requires
        t0.rows() == t0.visible(),
        t0.selected < t0.flat@.len(),
        t0.rows()[t0.selected as int].3,
        FileTree::selection_toggled(t0, t1, p1),
        FileTree::selection_toggled(t1, t2, p2),
        t1.selected == t0.selected,
        t1.selected < t1.flat@.len(),
        t1.rows()[t1.selected as int].1 == t0.rows()[t0.selected as int].1,
        t1.rows()[t1.selected as int].3,
    ensures
        t2.root_view() == t0.root_view(),
        t2.rows() == t0.rows(),
        t2.selected == t0.selected,
        p1 is None && p2 is None,
{
    let path = t0.rows()[t0.selected as int].1;
    let f = |m: NodeV| toggled(m);
    match locate(t0.root_view(), path) {
        Some(ip) => {
            law_toggle_keeps_paths(t0.root_view(), ip, path);
            assert(t1.root_view() == modify_at(t0.root_view(), ip, f));
            assert(locate(t1.root_view(), path) == Some(ip));
            law_toggle_twice(t0.root_view(), ip);
        },
        None => {},
    }
    assert(t2.visible() == t0.visible());
}

} // verus!

verus! {

/// `a` and `b` list the same rows, markers aside.
pub open spec fn same_rows_but_git(a: Seq<FlatV>, b: Seq<FlatV>) -> bool {
    &&& a.len() == b.len()
    &&& forall|i: int|
        0 <= i < a.len() ==> {
            let (x, y) = (#[trigger] a[i], b[i]);
            x.0 == y.0 && x.1 == y.1 && x.2 == y.2 && x.3 == y.3 && x.4 == y.4
        }
}

proof fn lemma_same_rows_concat(a1: Seq<FlatV>, b1: Seq<FlatV>, a2: Seq<FlatV>, b2: Seq<FlatV>)
    requires
        same_rows_but_git(a1, b1),
        same_rows_but_git(a2, b2),
    ensures
        same_rows_but_git(a1 + a2, b1 + b2),
{
    assert forall|i: int| 0 <= i < (a1 + a2).len() implies {
        let (x, y) = (#[trigger] (a1 + a2)[i], (b1 + b2)[i]);
        x.0 == y.0 && x.1 == y.1 && x.2 == y.2 && x.3 == y.3 && x.4 == y.4
    } by {
        if i < a1.len() {
            assert((a1 + a2)[i] == a1[i]);
            assert((b1 + b2)[i] == b1[i]);
        } else {
            assert((a1 + a2)[i] == a2[i - a1.len()]);
            assert((b1 + b2)[i] == b2[i - a1.len()]);
        }
    }
}

proof fn lemma_flat_with_git(n: NodeV, m: Map<Seq<char>, char>, d: int)
    ensures
        same_rows_but_git(flat_of(with_git(n, m), d), flat_of(n, d)),
    decreases n,
{
    let g = with_git(n, m);
    let head_g: Seq<FlatV> = seq![(d, g.path, g.name, g.is_dir, g.expanded, g.git)];
    let head_n: Seq<FlatV> = seq![(d, n.path, n.name, n.is_dir, n.expanded, n.git)];
    assert(same_rows_but_git(head_g, head_n));
    if n.is_dir && n.expanded && n.children is Some {
        let cs = n.children->0;
        lemma_flat_list_with_git(cs, m, d + 1);
        lemma_same_rows_concat(head_g, head_n, flat_list(with_git_list(cs, m), d + 1), flat_list(cs, d + 1));
    } else {
        assert(head_g + Seq::<FlatV>::empty() =~= head_g);
        assert(head_n + Seq::<FlatV>::empty() =~= head_n);
    }
}

proof fn lemma_flat_list_with_git(cs: Seq<NodeV>, m: Map<Seq<char>, char>, d: int)
    ensures
        same_rows_but_git(flat_list(with_git_list(cs, m), d), flat_list(cs, d)),
    decreases cs,
{
    if cs.len() > 0 {
        let gs = with_git_list(cs, m);
        assert(gs.drop_last() == with_git_list(cs.drop_last(), m));
        assert(gs.last() == with_git(cs.last(), m));
        lemma_flat_list_with_git(cs.drop_last(), m, d);
        lemma_flat_with_git(cs.last(), m, d);
        lemma_same_rows_concat(
            flat_list(gs.drop_last(), d),
            flat_list(cs.drop_last(), d),
            flat_of(gs.last(), d),
            flat_of(cs.last(), d),
        );
    }
}

/// New git markers change only the markers of the rows: the explorer keeps
/// its rows, in order, and its selection.
pub proof fn law_set_git_keeps_rows(t0: FileTree, t1: FileTree, git: StatusMap)
    requires
        t0.rows() == t0.visible(),
        t0.selected < t0.flat@.len(),
        FileTree::git_set(t0, t1, git),
    ensures
        same_rows_but_git(t1.rows(), t0.rows()),
        t1.selected == t0.selected,
{
    lemma_flat_with_git(t0.root_view(), git@, 0);
    let a = flat_of(t1.root_view(), 0);
    let b = flat_of(t0.root_view(), 0);
    assert forall|i: int| 0 <= i < rows16(a).len() implies {
        let (x, y) = (#[trigger] rows16(a)[i], rows16(b)[i]);
        x.0 == y.0 && x.1 == y.1 && x.2 == y.2 && x.3 == y.3 && x.4 == y.4
    } by {
        assert(a[i].0 == b[i].0);
    }
}

} // verus!
