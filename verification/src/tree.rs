//! The directory tree pane: the tree from the root down to the current
//! directory (each ancestor expanded), and moving, expanding and collapsing
//! in it.
use vstd::prelude::*;
use crate::app::{App, TreeNode};
use crate::fs_utils::{components, path_components};
use crate::text::{chars_eq, chars_of, copy_chars, string_of, views};

verus! {

/// A tree line as values: path, name, depth, expanded, has children.
pub type NodeView = (Seq<char>, Seq<char>, nat, bool, bool);

/// The value of a tree line.
pub open spec fn node_view(n: TreeNode) -> NodeView {
    (n.path@, n.name@, n.depth as nat, n.expanded, n.has_children)
}

/// The values of tree lines.
pub open spec fn node_views(ns: Seq<TreeNode>) -> Seq<NodeView> {
    ns.map_values(|n: TreeNode| node_view(n))
}

/// The path of the entry `name` of directory `dir` (`Path::join`).
pub open spec fn join_path(dir: Seq<char>, name: Seq<char>) -> Seq<char> {
    if dir.len() > 0 && dir.last() == '/' {
        dir + name
    } else {
        dir + seq!['/'] + name
    }
}

/// Subdirectory listings as values: per level, (name, has children).
pub type LevelsView = Seq<Seq<(Seq<char>, bool)>>;

/// The listings as values.
pub open spec fn levels_view(levels: Seq<Vec<(String, bool)>>) -> LevelsView {
    levels.map_values(|l: Vec<(String, bool)>| l@.map_values(|c: (String, bool)| (c.0@, c.1)))
}

/// The number of subdirectories listed at level `k`.
pub open spec fn level_len(levels: LevelsView, k: int) -> int {
    if 0 <= k < levels.len() {
        levels[k].len() as int
    } else {
        0
    }
}

/// The tree lines below directory `dir` at depth `k` (whose subdirectories
/// are `levels[k]`), from its `j`-th subdirectory on: each subdirectory,
/// and below it its own lines when it is the next directory `comps[k]` on
/// the way to the current directory.
pub open spec fn kids(levels: LevelsView, comps: Seq<Seq<char>>, k: int, dir: Seq<char>, j: int) -> Seq<
    NodeView,
>
    decreases comps.len() + 1 - k, level_len(levels, k) - j,
{
    if k < 0 || k > comps.len() || k >= levels.len() || j < 0 || j >= levels[k].len() {
        seq![]
    } else {
        let name = levels[k][j].0;
        let path = join_path(dir, name);
        let exp = k < comps.len() && name == comps[k];
        let node: NodeView = (path, name, (k + 1) as nat, exp, levels[k][j].1);
        let below = if exp {
            kids(levels, comps, k + 1, path, 0)
        } else {
            seq![]
        };
        seq![node] + below + kids(levels, comps, k, dir, j + 1)
    }
}

/// The tree for the current directory with components `comps` below the
/// root: the root `/`, expanded, then the lines below it.
pub open spec fn tree_for(levels: LevelsView, comps: Seq<Seq<char>>, root_has_children: bool) -> Seq<
    NodeView,
> {
    seq![("/"@, "/"@, 0nat, true, root_has_children)] + kids(levels, comps, 0, "/"@, 0)
}

/// The first line whose path is the path `p` (compared component by
/// component, as `Path` equality does), or 0.
pub open spec fn first_with_path(ns: Seq<NodeView>, p: Seq<char>, i: int) -> int
    decreases ns.len() - i,
{
    if i < 0 || i >= ns.len() {
        0
    } else if path_components(ns[i].0) == path_components(p) {
        i
    } else {
        first_with_path(ns, p, i + 1)
    }
}

fn join_chars(dir: &Vec<char>, name: &[char]) -> (r: Vec<char>)
    ensures
        r@ == join_path(dir@, name@),
{
    let mut out = copy_chars(dir);
    if !(dir.len() > 0 && dir[dir.len() - 1] == '/') {
        out.push('/');
    }
    let ghost o = out@;
    let mut k: usize = 0;
    while k < name.len()
        invariant
            k <= name.len(),
            out@ == o + name@.take(k as int),
        decreases name.len() - k,
    {
        out.push(name[k]);
        k += 1;
        assert(out@ =~= o + name@.take(k as int));
    }
    assert(name@.take(name.len() as int) =~= name@);
    assert(out@ =~= join_path(dir@, name@));
    out
}

/// Appends the tree lines below directory `dir` at depth `k` (see
/// [`kids`]).
pub fn add_tree_node(
    nodes: &mut Vec<TreeNode>,
    levels: &Vec<Vec<(String, bool)>>,
    comps: &Vec<Vec<char>>,
    k: usize,
    dir: &Vec<char>,
)
    requires
        k <= comps.len(),
    ensures
        node_views(final(nodes)@) == node_views(old(nodes)@) + kids(levels_view(levels@), views(comps@), k as int, dir@, 0),
    decreases comps.len() + 1 - k,
{
    let ghost lv = levels_view(levels@);
    let ghost cv = views(comps@);
    let ghost start = node_views(nodes@);
    if k >= levels.len() {
        assert(node_views(nodes@) =~= start + kids(lv, cv, k as int, dir@, 0));
        return;
    }
    let n = levels[k].len();
    let mut j: usize = 0;
    assert(start + kids(lv, cv, k as int, dir@, 0) =~= node_views(nodes@) + kids(lv, cv, k as int, dir@, 0));
    while j < n
        invariant
            k < levels.len(),
            k <= comps.len(),
            n == levels@[k as int]@.len(),
            j <= n,
            lv == levels_view(levels@),
            cv == views(comps@),
            node_views(nodes@) + kids(lv, cv, k as int, dir@, j as int) == start + kids(lv, cv, k as int, dir@, 0),
        decreases n - j,
    {
        let ghost before = node_views(nodes@);
        let name = chars_of(levels[k][j].0.as_str());
        let hc = levels[k][j].1;
        assert(lv[k as int][j as int] == (name@, hc));
        let path = join_chars(dir, &name);
        let exp = k < comps.len() && chars_eq(&name, &comps[k]);
        assert(exp == (k < cv.len() && name@ == cv[k as int]));
        nodes.push(TreeNode {
            path: string_of(&path),
            name: string_of(&name),
            depth: k + 1,
            expanded: exp,
            has_children: hc,
        });
        assert(node_views(nodes@) =~= before.push((path@, name@, (k + 1) as nat, exp, hc)));
        if exp {
            add_tree_node(nodes, levels, comps, k + 1, &path);
        }
        let ghost below = if exp {
            kids(lv, cv, k + 1, path@, 0)
        } else {
            seq![]
        };
        assert(node_views(nodes@) =~= before + seq![(path@, name@, (k + 1) as nat, exp, hc)] + below);
        assert(kids(lv, cv, k as int, dir@, j as int) == seq![(path@, name@, (k + 1) as nat, exp, hc)] + below
            + kids(lv, cv, k as int, dir@, j + 1));
        j += 1;
    }
}

/// The directory tree for `current_dir` (an absolute path): the root `/`,
/// and below each directory on the way to `current_dir` its subdirectories,
/// where `levels[k]` lists the subdirectories (name, has children) of the
/// `k`-th directory on the way (the root first) and `root_has_children`
/// says whether the root has any. Also the line of `current_dir`, or 0
/// when it is not in the tree.
pub fn tree_build(current_dir: &str, levels: &Vec<Vec<(String, bool)>>, root_has_children: bool) -> (r: (
    Vec<TreeNode>,
    usize,
))
    requires
        current_dir@.len() > 0,
        current_dir@[0] == '/',
    ensures
        node_views(r.0@) == tree_for(levels_view(levels@), path_components(current_dir@).skip(1), root_has_children),
        r.1 == first_with_path(node_views(r.0@), current_dir@, 0),
{
    let cd = chars_of(current_dir);
    let all = components(&cd);
    proof {
        reveal_strlit("/");
    }
    assert(views(all@).len() >= 1);
    let mut comps: Vec<Vec<char>> = Vec::new();
    let mut i: usize = 1;
    assert(views(comps@) =~= views(all@).subrange(1, 1));
    while i < all.len()
        invariant
            1 <= i <= all.len(),
            views(comps@) == views(all@).subrange(1, i as int),
        decreases all.len() - i,
    {
        let ghost before = views(comps@);
        let piece = copy_chars(&all[i]);
        comps.push(piece);
        assert(views(comps@) =~= before.push(all@[i as int]@));
        i += 1;
        assert(views(comps@) =~= views(all@).subrange(1, i as int));
    }
    assert(views(comps@) =~= views(all@).skip(1));
    let mut nodes: Vec<TreeNode> = Vec::new();
    let root = chars_of("/");
    nodes.push(TreeNode {
        path: string_of(&root),
        name: string_of(&root),
        depth: 0,
        expanded: true,
        has_children: root_has_children,
    });
    assert(node_views(nodes@) =~= seq![("/"@, "/"@, 0nat, true, root_has_children)]);
    add_tree_node(&mut nodes, levels, &comps, 0, &root);
    let mut c: usize = 0;
    let mut j: usize = 0;
    while j < nodes.len()
        invariant_except_break
            c == 0,
            first_with_path(node_views(nodes@), current_dir@, j as int) == first_with_path(
                node_views(nodes@),
                current_dir@,
                0,
            ),
        invariant
            j <= nodes.len(),
            node_views(nodes@).len() == nodes.len(),
            views(all@) == path_components(current_dir@),
        ensures
            c == first_with_path(node_views(nodes@), current_dir@, 0),
        decreases nodes.len() - j,
    {
        let pc = components(&chars_of(nodes[j].path.as_str()));
        assert(node_views(nodes@)[j as int] == node_view(nodes@[j as int]));
        if components_equal(&pc, &all) {
            c = j;
            break;
        }
        j += 1;
    }
    (nodes, c)
}

fn components_equal(a: &Vec<Vec<char>>, b: &Vec<Vec<char>>) -> (r: bool)
    ensures
        r == (views(a@) == views(b@)),
{
    if a.len() != b.len() {
        assert(views(a@).len() != views(b@).len());
        return false;
    }
    let mut i: usize = 0;
    while i < a.len()
        invariant
            a.len() == b.len(),
            i <= a.len(),
            forall|k: int| 0 <= k < i ==> views(a@)[k] == views(b@)[k],
        decreases a.len() - i,
    {
        if !chars_eq(&a[i], &b[i]) {
            assert(views(a@)[i as int] != views(b@)[i as int]);
            return false;
        }
        i += 1;
    }
    assert(views(a@) =~= views(b@));
    true
}


// ── Moving in the tree ───────────────────────────────────────────────────

/// The scroll offset that keeps line `cursor` in a window of `lh` lines
/// starting at `offset`.
pub open spec fn clamped_offset(cursor: nat, offset: nat, lh: nat) -> nat {
    if lh == 0 {
        offset
    } else if cursor < offset {
        cursor
    } else if cursor >= offset + lh {
        (cursor + 1 - lh) as nat
    } else {
        offset
    }
}

/// The first line after `c` no deeper than line `c` (the end of its
/// subtree), or the number of lines.
pub open spec fn subtree_end(ns: Seq<NodeView>, c: int, i: int) -> int
    decreases ns.len() - i,
{
    if i < 0 || i >= ns.len() {
        ns.len() as int
    } else if ns[i].2 <= ns[c].2 {
        i
    } else {
        subtree_end(ns, c, i + 1)
    }
}

/// The last line before `i` shallower than `depth` (the parent), if any.
pub open spec fn parent_line(ns: Seq<NodeView>, depth: nat, i: int) -> Option<int>
    decreases i,
{
    if i <= 0 || i > ns.len() {
        None
    } else if ns[i - 1].2 < depth {
        Some(i - 1)
    } else {
        parent_line(ns, depth, i - 1)
    }
}

/// The lines for the subdirectories `children` (name, has children) of the
/// line `n`.
pub open spec fn child_lines(n: NodeView, children: Seq<(Seq<char>, bool)>) -> Seq<NodeView> {
    children.map_values(|ch: (Seq<char>, bool)| (join_path(n.0, ch.0), ch.0, n.2 + 1, false, ch.1))
}

impl App {
    /// Scrolls the tree so that its cursor line is in a window of `lh`
    /// lines.
    pub fn tree_clamp_offset(&mut self, lh: usize)
        requires
            old(self).tree_offset + lh <= usize::MAX,
        ensures
            *final(self) == (App {
                tree_offset: clamped_offset(old(self).tree_cursor as nat, old(self).tree_offset as nat, lh as nat) as usize,
                ..*old(self)
            }),
    {
        if lh == 0 {
            return;
        }
        if self.tree_cursor < self.tree_offset {
            self.tree_offset = self.tree_cursor;
        } else if self.tree_cursor >= self.tree_offset + lh {
            self.tree_offset = self.tree_cursor - lh + 1;
        }
    }

    /// Moves the tree cursor up one line and makes that line's directory
    /// the current one (cursor on its first entry); says whether it moved.
    /// The caller then lists the new directory.
    pub fn tree_move_up(&mut self, lh: usize) -> (moved: bool)
        requires
            old(self).tree_cursor == 0 || old(self).tree_cursor - 1 < old(self).tree_nodes.len(),
            old(self).tree_offset + lh <= usize::MAX,
        ensures
            moved == (old(self).tree_cursor > 0),
            !moved ==> *final(self) == *old(self),
            moved ==> final(self).tree_cursor == old(self).tree_cursor - 1
                && final(self).tree_offset == clamped_offset((old(self).tree_cursor - 1) as nat, old(self).tree_offset as nat, lh as nat)
                && final(self).current_dir@ == old(self).tree_nodes@[old(self).tree_cursor - 1].path@
                && final(self).cursor == 0
                && final(self).tree_nodes@ == old(self).tree_nodes@
                && final(self).entries@ == old(self).entries@,
    {
        if self.tree_cursor == 0 {
            return false;
        }
        self.tree_cursor = self.tree_cursor - 1;
        self.tree_clamp_offset(lh);
        let p = self.tree_nodes[self.tree_cursor].path.clone();
        self.current_dir = p;
        self.cursor = 0;
        true
    }

    /// Moves the tree cursor down one line and makes that line's directory
    /// the current one; says whether it moved.
    pub fn tree_move_down(&mut self, lh: usize) -> (moved: bool)
        requires
            old(self).tree_cursor < usize::MAX,
            old(self).tree_offset + lh <= usize::MAX,
        ensures
            moved == (old(self).tree_cursor + 1 < old(self).tree_nodes.len()),
            !moved ==> *final(self) == *old(self),
            moved ==> final(self).tree_cursor == old(self).tree_cursor + 1
                && final(self).tree_offset == clamped_offset((old(self).tree_cursor + 1) as nat, old(self).tree_offset as nat, lh as nat)
                && final(self).current_dir@ == old(self).tree_nodes@[old(self).tree_cursor + 1].path@
                && final(self).cursor == 0
                && final(self).tree_nodes@ == old(self).tree_nodes@
                && final(self).entries@ == old(self).entries@,
    {
        if self.tree_cursor + 1 >= self.tree_nodes.len() {
            return false;
        }
        self.tree_cursor = self.tree_cursor + 1;
        self.tree_clamp_offset(lh);
        let p = self.tree_nodes[self.tree_cursor].path.clone();
        self.current_dir = p;
        self.cursor = 0;
        true
    }

    /// The directory whose subdirectories the caller must list to expand
    /// the tree cursor line: its path when that line can be expanded (not
    /// expanded yet, with subdirectories).
    pub fn tree_expand_target(&self) -> (r: Option<String>)
        ensures
            match r {
                Some(p) => self.tree_cursor < self.tree_nodes.len()
                    && !self.tree_nodes@[self.tree_cursor as int].expanded
                    && self.tree_nodes@[self.tree_cursor as int].has_children
                    && p@ == self.tree_nodes@[self.tree_cursor as int].path@,
                None => !(self.tree_cursor < self.tree_nodes.len()
                    && !self.tree_nodes@[self.tree_cursor as int].expanded
                    && self.tree_nodes@[self.tree_cursor as int].has_children),
            },
    {
        if self.tree_cursor >= self.tree_nodes.len() {
            return None;
        }
        let n = &self.tree_nodes[self.tree_cursor];
        if n.expanded || !n.has_children {
            None
        } else {
            Some(n.path.clone())
        }
    }

    /// Expands the tree cursor line with its subdirectories `children`
    /// (name, has children), inserted below it one level deeper; nothing
    /// happens when the line cannot be expanded.
    pub fn tree_expand(&mut self, children: Vec<(String, bool)>)
        requires
            old(self).tree_cursor < old(self).tree_nodes.len() ==> old(self).tree_nodes@[old(self).tree_cursor as int].depth < usize::MAX,
        ensures
            expand_post(*old(self), *final(self), children@.map_values(|ch: (String, bool)| (ch.0@, ch.1))),
    {
        if self.tree_cursor >= self.tree_nodes.len() {
            return;
        }
        let c = self.tree_cursor;
        if self.tree_nodes[c].expanded || !self.tree_nodes[c].has_children {
            return;
        }
        let ghost ns = node_views(self.tree_nodes@);
        let ghost chv = children@.map_values(|ch: (String, bool)| (ch.0@, ch.1));
        let mut rest: Vec<TreeNode> = Vec::new();
        std::mem::swap(&mut rest, &mut self.tree_nodes);
        let ghost orig = rest@;
        let mut out: Vec<TreeNode> = Vec::new();
        let mut i: usize = 0;
        while i < c
            invariant
                i <= c,
                c < orig.len(),
                ns == node_views(orig),
                rest@ == orig.skip(i as int),
                node_views(out@) == ns.take(i as int),
            decreases c - i,
        {
            let ghost before = node_views(out@);
            let n = rest.remove(0);
            out.push(n);
            assert(node_views(out@) =~= before.push(node_view(orig[i as int])));
            i += 1;
            assert(rest@ =~= orig.skip(i as int));
            assert(node_views(out@) =~= ns.take(i as int));
        }
        let n = rest.remove(0);
        assert(rest@ =~= orig.skip(c + 1));
        assert(node_view(n) == ns[c as int]);
        let dir = chars_of(n.path.as_str());
        let depth = n.depth;
        let ghost before = node_views(out@);
        out.push(TreeNode { path: n.path, name: n.name, depth: n.depth, expanded: true, has_children: n.has_children });
        let ghost head = ns.take(c as int).push((ns[c as int].0, ns[c as int].1, ns[c as int].2, true, ns[c as int].4));
        assert(node_views(out@) =~= head);
        let mut k: usize = 0;
        while k < children.len()
            invariant
                k <= children.len(),
                dir@ == ns[c as int].0,
                depth == ns[c as int].2,
                depth < usize::MAX,
                chv == children@.map_values(|ch: (String, bool)| (ch.0@, ch.1)),
                node_views(out@) == head + child_lines(ns[c as int], chv.take(k as int)),
            decreases children.len() - k,
        {
            let ghost b2 = node_views(out@);
            let name = chars_of(children[k].0.as_str());
            let path = join_chars(&dir, &name);
            out.push(TreeNode {
                path: string_of(&path),
                name: string_of(&name),
                depth: depth + 1,
                expanded: false,
                has_children: children[k].1,
            });
            assert(chv[k as int] == (name@, children@[k as int].1));
            assert(child_lines(ns[c as int], chv.take(k + 1)) =~= child_lines(ns[c as int], chv.take(k as int)).push(
                (path@, name@, depth as nat + 1, false, children@[k as int].1),
            ));
            assert(node_views(out@) =~= b2.push((path@, name@, depth as nat + 1, false, children@[k as int].1)));
            k += 1;
        }
        assert(chv.take(children.len() as int) =~= chv);
        let ghost mid = node_views(out@);
        out.append(&mut rest);
        assert(node_views(out@) =~= mid + ns.skip(c + 1));
        self.tree_nodes = out;
    }

    /// Collapses the tree cursor line when it is expanded (its subtree
    /// lines go); otherwise moves the tree cursor to the parent line and
    /// makes that directory current. Says whether the current directory
    /// changed (the caller then lists it).
    pub fn tree_collapse(&mut self, lh: usize) -> (moved: bool)
        requires
            old(self).tree_offset + lh <= usize::MAX,
        ensures
            collapse_post(*old(self), *final(self), lh as nat, moved),
    {
        let c = self.tree_cursor;
        if c >= self.tree_nodes.len() {
            return false;
        }
        let ghost ns = node_views(self.tree_nodes@);
        let depth = self.tree_nodes[c].depth;
        assert(ns[c as int] == node_view(self.tree_nodes@[c as int]));
        if self.tree_nodes[c].expanded {
            let n = self.tree_nodes.len();
            let mut end: usize = c + 1;
            while end < n
                invariant
                    c < end <= n,
                    n == ns.len(),
                    ns == node_views(self.tree_nodes@),
                    depth == ns[c as int].2,
                    subtree_end(ns, c as int, end as int) == subtree_end(ns, c as int, c + 1),
                ensures
                    end == subtree_end(ns, c as int, c + 1),
                    c < end <= n,
                decreases n - end,
            {
                assert(ns[end as int] == node_view(self.tree_nodes@[end as int]));
                if self.tree_nodes[end].depth <= depth {
                    break;
                }
                end += 1;
            }
            assert(end == subtree_end(ns, c as int, c + 1));
            let mut old_nodes: Vec<TreeNode> = Vec::new();
            std::mem::swap(&mut old_nodes, &mut self.tree_nodes);
            let ghost orig = old_nodes@;
            let mut out: Vec<TreeNode> = Vec::new();
            let mut i: usize = 0;
            while i < n
                invariant
                    i <= n,
                    c < end <= n,
                    n == orig.len(),
                    ns == node_views(orig),
                    old_nodes@ == orig.skip(i as int),
                    node_views(out@) == if i <= c {
                        ns.take(i as int)
                    } else if i <= end {
                        ns.take(c as int).push((ns[c as int].0, ns[c as int].1, ns[c as int].2, false, ns[c as int].4))
                    } else {
                        ns.take(c as int).push((ns[c as int].0, ns[c as int].1, ns[c as int].2, false, ns[c as int].4))
                            + ns.subrange(end as int, i as int)
                    },
                decreases n - i,
            {
                let ghost before = node_views(out@);
                let nd = old_nodes.remove(0);
                assert(node_view(nd) == ns[i as int]);
                if i < c || i >= end {
                    out.push(nd);
                    assert(node_views(out@) =~= before.push(ns[i as int]));
                } else if i == c {
                    out.push(TreeNode { path: nd.path, name: nd.name, depth: nd.depth, expanded: false, has_children: nd.has_children });
                    assert(node_views(out@) =~= before.push((ns[c as int].0, ns[c as int].1, ns[c as int].2, false, ns[c as int].4)));
                }
                i += 1;
                assert(old_nodes@ =~= orig.skip(i as int));
                if i <= c {
                    assert(node_views(out@) =~= ns.take(i as int));
                } else if i > end {
                    assert(ns.subrange(end as int, i as int) =~= ns.subrange(end as int, i - 1).push(ns[i - 1]));
                }
            }
            assert(ns.subrange(end as int, n as int) =~= ns.skip(end as int));
            if end == n {
                assert(ns.skip(end as int) =~= Seq::<NodeView>::empty());
            }
            self.tree_nodes = out;
            false
        } else {
            if depth == 0 {
                return false;
            }
            let mut i: usize = c;
            while i > 0
                invariant
                    i <= c,
                    c < ns.len(),
                    ns == node_views(self.tree_nodes@),
                    depth == ns[c as int].2,
                    parent_line(ns, depth as nat, i as int) == parent_line(ns, depth as nat, c as int),
                    *self == *old(self),
                    old(self).tree_offset + lh <= usize::MAX,
                    c == old(self).tree_cursor,
                    !ns[c as int].3,
                decreases i,
            {
                assert(ns[i - 1] == node_view(self.tree_nodes@[i - 1]));
                if self.tree_nodes[i - 1].depth < depth {
                    let pi = i - 1;
                    assert(parent_line(ns, depth as nat, i as int) == Some(pi as int));
                    assert(ns[pi as int].0 == self.tree_nodes@[pi as int].path@);
                    self.tree_cursor = pi;
                    self.tree_clamp_offset(lh);
                    let p = self.tree_nodes[pi].path.clone();
                    self.current_dir = p;
                    self.cursor = 0;
                    return true;
                }
                i -= 1;
            }
            false
        }
    }

    /// Rebuilds the tree pane (see [`tree_build`]) with its cursor on the
    /// current directory and scrolled to the top.
    pub fn tree_rebuild(&mut self, levels: &Vec<Vec<(String, bool)>>, root_has_children: bool)
        requires
            old(self).current_dir@.len() > 0,
            old(self).current_dir@[0] == '/',
        ensures
            node_views(final(self).tree_nodes@) == tree_for(levels_view(levels@), path_components(old(self).current_dir@).skip(1), root_has_children),
            final(self).tree_cursor == first_with_path(node_views(final(self).tree_nodes@), old(self).current_dir@, 0),
            final(self).tree_offset == 0,
            final(self).current_dir@ == old(self).current_dir@,
    {
        let (nodes, cur) = tree_build(self.current_dir.as_str(), levels, root_has_children);
        self.tree_nodes = nodes;
        self.tree_cursor = cur;
        self.tree_offset = 0;
    }
}


/// What [`App::tree_expand`] does with `children` (name, has children):
/// an expandable tree cursor line gets them below it (see
/// [`expanded_at`]); otherwise the tree stays. The cursors, the directory
/// and the listing stay.
pub open spec fn expand_post(o: App, f: App, children: Seq<(Seq<char>, bool)>) -> bool {
    let c = o.tree_cursor as int;
    let ns = node_views(o.tree_nodes@);
    &&& if c < ns.len() && !ns[c].3 && ns[c].4 {
        node_views(f.tree_nodes@) == expanded_at(ns, c, children)
    } else {
        f.tree_nodes@ == o.tree_nodes@
    }
    &&& f.tree_cursor == o.tree_cursor
    &&& f.tree_offset == o.tree_offset
    &&& f.current_dir@ == o.current_dir@
    &&& f.entries@ == o.entries@
    &&& f.cursor == o.cursor
}

/// What [`App::tree_collapse`] does with `lh` rows shown, `moved` saying
/// whether the current directory changed: an expanded tree cursor line
/// loses its subtree (see [`collapsed_at`]); otherwise the cursor goes to
/// the parent line, whose directory becomes current, or nothing happens.
pub open spec fn collapse_post(o: App, f: App, lh: nat, moved: bool) -> bool {
    let c = o.tree_cursor as int;
    let ns = node_views(o.tree_nodes@);
    &&& if c >= ns.len() {
        !moved && f == o
    } else if ns[c].3 {
        &&& !moved
        &&& node_views(f.tree_nodes@) == collapsed_at(ns, c)
        &&& f.tree_cursor == o.tree_cursor
        &&& f.tree_offset == o.tree_offset
        &&& f.current_dir@ == o.current_dir@
        &&& f.cursor == o.cursor
    } else {
        match (if ns[c].2 > 0 { parent_line(ns, ns[c].2, c) } else { None }) {
            Some(pi) => {
                &&& moved
                &&& f.tree_cursor == pi
                &&& f.tree_offset == clamped_offset(pi as nat, o.tree_offset as nat, lh)
                &&& f.current_dir@ == ns[pi].0
                &&& f.cursor == 0
                &&& f.tree_nodes@ == o.tree_nodes@
            },
            None => !moved && f == o,
        }
    }
    &&& f.entries@ == o.entries@
}

// ── Laws ─────────────────────────────────────────────────────────────────

/// The tree with line `c` expanded by the lines of `children`.
pub open spec fn expanded_at(ns: Seq<NodeView>, c: int, children: Seq<(Seq<char>, bool)>) -> Seq<NodeView> {
    ns.take(c).push((ns[c].0, ns[c].1, ns[c].2, true, ns[c].4)) + child_lines(ns[c], children) + ns.skip(c + 1)
}

/// The tree with the subtree of line `c` removed and `c` marked collapsed.
pub open spec fn collapsed_at(ns: Seq<NodeView>, c: int) -> Seq<NodeView> {
    ns.take(c).push((ns[c].0, ns[c].1, ns[c].2, false, ns[c].4)) + ns.skip(subtree_end(ns, c, c + 1))
}

proof fn lemma_end_after_children(ns: Seq<NodeView>, c: int, children: Seq<(Seq<char>, bool)>, i: int)
    requires
        0 <= c < ns.len(),
        c + 1 < ns.len() ==> ns[c + 1].2 <= ns[c].2,
        c + 1 <= i <= c + 1 + children.len(),
    ensures
        subtree_end(expanded_at(ns, c, children), c, i) == c + 1 + children.len(),
    decreases c + 1 + children.len() - i,
{
    let e = expanded_at(ns, c, children);
    let k = children.len() as int;
    assert(e.len() == ns.len() + k);
    assert(e[c].2 == ns[c].2);
    if i < c + 1 + k {
        assert(e[i] == child_lines(ns[c], children)[i - c - 1]);
        assert(e[i].2 == ns[c].2 + 1);
        lemma_end_after_children(ns, c, children, i + 1);
    } else if i < e.len() {
        assert(e[i] == ns[c + 1]);
    }
}

/// Expanding a collapsed line and collapsing it again gives back the tree
/// (a collapsed line has no deeper lines right below it). With the
/// contracts of [`App::tree_expand`] and [`App::tree_collapse`], which
/// leave the tree cursor where it was, this is the round trip of the two
/// keys on the tree cursor line.
pub proof fn law_expand_then_collapse(ns: Seq<NodeView>, c: int, children: Seq<(Seq<char>, bool)>)
    requires
        0 <= c < ns.len(),
        !ns[c].3,
        c + 1 < ns.len() ==> ns[c + 1].2 <= ns[c].2,
    ensures
        collapsed_at(expanded_at(ns, c, children), c) == ns,
{
    let e = expanded_at(ns, c, children);
    lemma_end_after_children(ns, c, children, c + 1);
    let k = children.len() as int;
    assert(e.skip(c + 1 + k) =~= ns.skip(c + 1));
    assert(e.take(c) =~= ns.take(c));
    assert(collapsed_at(e, c) =~= ns);
}

/// Line `i` is at most one level deeper than the line above it.
pub open spec fn deepens_by_at_most_one(s: Seq<NodeView>, i: int) -> bool {
    s[i].2 <= s[i - 1].2 + 1
}

/// A line is expanded exactly when it lies on the way to the current
/// directory: it is the root, or its name is the component of the current
/// directory at its depth.
pub open spec fn expanded_on_path(comps: Seq<Seq<char>>, n: NodeView) -> bool {
    n.3 <==> (n.2 == 0 || (n.2 <= comps.len() && n.1 == comps[n.2 - 1]))
}

/// The shape of the lines below a directory at depth `d - 1`: each at
/// depth `d` or deeper, the first at depth `d`, each at most one level
/// deeper than the one above, and exactly the lines on the way to the
/// current directory expanded.
pub open spec fn block_shape(s: Seq<NodeView>, d: nat, comps: Seq<Seq<char>>) -> bool {
    &&& forall|i: int| 0 <= i < s.len() ==> #[trigger] s[i].2 >= d
    &&& s.len() > 0 ==> s[0].2 == d
    &&& forall|i: int| 0 < i < s.len() ==> #[trigger] deepens_by_at_most_one(s, i)
    &&& forall|i: int| 0 <= i < s.len() ==> #[trigger] expanded_on_path(comps, s[i])
}

proof fn lemma_kids_shape(levels: LevelsView, comps: Seq<Seq<char>>, k: int, dir: Seq<char>, j: int)
    requires
        k >= 0,
    ensures
        block_shape(kids(levels, comps, k, dir, j), (k + 1) as nat, comps),
    decreases comps.len() + 1 - k, level_len(levels, k) - j,
{
    if k < 0 || k > comps.len() || k >= levels.len() || j < 0 || j >= levels[k].len() {
    } else {
        let name = levels[k][j].0;
        let path = join_path(dir, name);
        let exp = k < comps.len() && name == comps[k];
        let node: NodeView = (path, name, (k + 1) as nat, exp, levels[k][j].1);
        let below = if exp { kids(levels, comps, k + 1, path, 0) } else { seq![] };
        if exp {
            lemma_kids_shape(levels, comps, k + 1, path, 0);
        }
        let rest = kids(levels, comps, k, dir, j + 1);
        lemma_kids_shape(levels, comps, k, dir, j + 1);
        let s = seq![node] + below + rest;
        assert(kids(levels, comps, k, dir, j) == s);
        let b = below.len() as int;
        assert forall|i: int| 0 <= i < s.len() implies #[trigger] s[i].2 >= k + 1 && expanded_on_path(comps, s[i]) by {
            if i == 0 {
            } else if i <= b {
                assert(s[i] == below[i - 1]);
            } else {
                assert(s[i] == rest[i - 1 - b]);
            }
        }
        assert forall|i: int| 0 < i < s.len() implies #[trigger] deepens_by_at_most_one(s, i) by {
            if i == 1 && b > 0 {
                assert(s[1] == below[0]);
            } else if i <= b {
                assert(s[i] == below[i - 1]);
                assert(s[i - 1] == below[i - 2]);
                assert(deepens_by_at_most_one(below, i - 1));
            } else if i == b + 1 {
                assert(s[i] == rest[0]);
                assert(s[i - 1].2 >= k + 1);
            } else {
                assert(s[i] == rest[i - 1 - b]);
                assert(s[i - 1] == rest[i - 2 - b]);
                assert(deepens_by_at_most_one(rest, i - 1 - b));
            }
        }
    }
}

/// The shape of the tree for the current directory: the root at depth 0,
/// every other line at depth 1 or deeper and at most one level deeper than
/// the line above it, and exactly the root and the directories on the way
/// to the current directory expanded.
pub proof fn law_tree_shape(levels: LevelsView, comps: Seq<Seq<char>>, root_has_children: bool)
    ensures
        ({
            let t = tree_for(levels, comps, root_has_children);
            &&& t.len() >= 1 && t[0].2 == 0 && t[0].3
            &&& forall|i: int| 0 < i < t.len() ==> #[trigger] t[i].2 >= 1 && deepens_by_at_most_one(t, i)
            &&& forall|i: int| 0 <= i < t.len() ==> #[trigger] expanded_on_path(comps, t[i])
        }),
{
    let ks = kids(levels, comps, 0, "/"@, 0);
    lemma_kids_shape(levels, comps, 0, "/"@, 0);
    let t = tree_for(levels, comps, root_has_children);
    assert forall|i: int| 0 < i < t.len() implies #[trigger] t[i].2 >= 1 && deepens_by_at_most_one(t, i) by {
        assert(t[i] == ks[i - 1]);
        if i > 1 {
            assert(t[i - 1] == ks[i - 2]);
            assert(deepens_by_at_most_one(ks, i - 1));
        }
    }
    assert forall|i: int| 0 <= i < t.len() implies #[trigger] expanded_on_path(comps, t[i]) by {
        if i > 0 {
            assert(t[i] == ks[i - 1]);
        }
    }
}


/// Expanding the tree cursor line and then collapsing it gives back the
/// tree, with the tree cursor, the current directory and the listing as
/// they were: `a1` is what [`App::tree_expand`] makes of `a0`, and `a2`
/// what [`App::tree_collapse`] makes of `a1`.
pub proof fn law_tree_expand_then_collapse(
    a0: App,
    a1: App,
    a2: App,
    children: Seq<(Seq<char>, bool)>,
    lh: nat,
    moved: bool,
)
    requires
        a0.tree_cursor < a0.tree_nodes.len(),
        !node_views(a0.tree_nodes@)[a0.tree_cursor as int].3,
        node_views(a0.tree_nodes@)[a0.tree_cursor as int].4,
        a0.tree_cursor + 1 < a0.tree_nodes.len() ==> node_views(a0.tree_nodes@)[a0.tree_cursor + 1].2
            <= node_views(a0.tree_nodes@)[a0.tree_cursor as int].2,
        expand_post(a0, a1, children),
        collapse_post(a1, a2, lh, moved),
    ensures
        node_views(a2.tree_nodes@) == node_views(a0.tree_nodes@),
        a2.tree_cursor == a0.tree_cursor,
        !moved,
        a2.current_dir@ == a0.current_dir@,
        a2.cursor == a0.cursor,
        a2.entries@ == a0.entries@,
{
    let ns = node_views(a0.tree_nodes@);
    let c = a0.tree_cursor as int;
    law_expand_then_collapse(ns, c, children);
    let e = node_views(a1.tree_nodes@);
    assert(e == expanded_at(ns, c, children));
    assert(e.len() == ns.len() + children.len());
    assert(e[c].3);
}

} // verus!
