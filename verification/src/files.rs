//! Files panel: the app's data directory as a lazily loaded tree, the
//! visible rows of that tree, and how a file's contents may be shown.

use vstd::prelude::*;
use crate::app::Action;
use crate::keys::{KeyCode, KeyEvent};
use crate::text::{occurs_at, ascii_lower_seq, ascii_lower_vec, lemma_rfind_upto_range, rfind, rfind_slice, extend_chars, string_from_chars, chars_of, eq_chars, has_prefix, starts_with};

verus! {

/// One directory entry; a directory's children are loaded on first expand.
pub struct FileNode {
    pub name: String,
    pub path: String,
    pub is_dir: bool,
    pub expanded: bool,
    pub children: Option<Vec<FileNode>>,
    pub loading: bool,
}

pub ghost struct NodeView {
    pub name: Seq<char>,
    pub path: Seq<char>,
    pub is_dir: bool,
    pub expanded: bool,
    pub loading: bool,
    pub children: Option<Seq<NodeView>>,
}

pub open spec fn node_view(n: FileNode) -> NodeView
    decreases n, 0int,
{
    NodeView {
        name: n.name@,
        path: n.path@,
        is_dir: n.is_dir,
        expanded: n.expanded,
        loading: n.loading,
        children: match n.children {
            Some(c) => Some(nodes_view(c@)),
            None => None,
        },
    }
}

pub open spec fn nodes_view(s: Seq<FileNode>) -> Seq<NodeView>
    decreases s, 1int,
{
    if s.len() == 0 {
        Seq::empty()
    } else {
        nodes_view(s.drop_last()).push(node_view(s.last()))
    }
}

pub proof fn lemma_nodes_view(s: Seq<FileNode>)
    ensures
        nodes_view(s).len() == s.len(),
        forall|i: int| 0 <= i < s.len() ==> #[trigger] nodes_view(s)[i] == node_view(s[i]),
    decreases s.len(),
{
    if s.len() > 0 {
        lemma_nodes_view(s.drop_last());
        assert forall|i: int| 0 <= i < s.len() implies #[trigger] nodes_view(s)[i] == node_view(s[i]) by {
            if i < s.len() - 1 {
                assert(s.drop_last()[i] == s[i]);
            }
        }
    }
}

pub proof fn lemma_nodes_view_update(s: Seq<FileNode>, i: int, v: FileNode)
    requires
        0 <= i < s.len(),
    ensures
        nodes_view(s.update(i, v)) == nodes_view(s).update(i, node_view(v)),
{
    lemma_nodes_view(s);
    lemma_nodes_view(s.update(i, v));
    assert(nodes_view(s.update(i, v)) =~= nodes_view(s).update(i, node_view(v)));
}

/// `path` lies below the directory `dir`: it continues with `/` after it.
pub open spec fn descends(dir: Seq<char>, path: Seq<char>) -> bool {
    starts_with(path, dir) && starts_with(path.skip(dir.len() as int), "/"@)
}

/// Where the node for `path` is, as child indices from the top, searching
/// siblings from `i` on: a node with that path is the answer; a loaded
/// directory that `path` lies below is searched instead of the remaining
/// siblings.
pub open spec fn locate(nodes: Seq<NodeView>, path: Seq<char>, i: int) -> Option<Seq<int>>
    decreases nodes, nodes.len() - i,
{
    if i < 0 || i >= nodes.len() {
        None
    } else if nodes[i].path == path {
        Some(seq![i])
    } else if descends(nodes[i].path, path) && nodes[i].children is Some {
        match locate(nodes[i].children->0, path, 0) {
            Some(p) => Some(seq![i] + p),
            None => None,
        }
    } else {
        locate(nodes, path, i + 1)
    }
}

pub proof fn lemma_locate_nonempty(nodes: Seq<NodeView>, path: Seq<char>, i: int)
    ensures
        locate(nodes, path, i) matches Some(p) ==> p.len() >= 1,
    decreases nodes, nodes.len() - i,
{
    if 0 <= i < nodes.len() && nodes[i].path != path {
        if descends(nodes[i].path, path) && nodes[i].children is Some {
            lemma_locate_nonempty(nodes[i].children->0, path, 0);
        } else {
            lemma_locate_nonempty(nodes, path, i + 1);
        }
    }
}

/// The node at index path `ip`.
pub open spec fn node_at(nodes: Seq<NodeView>, ip: Seq<int>) -> NodeView
    decreases ip.len(),
{
    if ip.len() <= 1 {
        nodes[ip[0]]
    } else {
        node_at(nodes[ip[0]].children->0, ip.drop_first())
    }
}

/// `nodes` with the node at index path `ip` replaced by `new`.
pub open spec fn replace_at(nodes: Seq<NodeView>, ip: Seq<int>, new: NodeView) -> Seq<NodeView>
    decreases ip.len(),
{
    if ip.len() <= 1 {
        nodes.update(ip[0], new)
    } else {
        nodes.update(
            ip[0],
            NodeView {
                children: Some(replace_at(nodes[ip[0]].children->0, ip.drop_first(), new)),
                ..nodes[ip[0]]
            },
        )
    }
}

/// The node whose path is `path`, for changing in place.
pub fn find_node_mut<'a>(nodes: &'a mut Vec<FileNode>, path: &str) -> (r: Option<&'a mut FileNode>)
    ensures
        match locate(nodes_view(old(nodes)@), path@, 0) {
            None => r is None && nodes_view(final(nodes)@) == nodes_view(old(nodes)@),
            Some(ip) => r matches Some(x) && node_view(*x) == node_at(nodes_view(old(nodes)@), ip)
                && nodes_view(final(nodes)@) == replace_at(
                nodes_view(old(nodes)@),
                ip,
                node_view(*final(x)),
            ),
        },
    decreases old(nodes)@,
{
    let pv = chars_of(path);
    let slash = chars_of("/");
    let mut i: usize = 0;
    proof {
        lemma_nodes_view(nodes@);
    }
    while i < nodes.len()
        invariant
            i <= nodes@.len(),
            nodes@ == old(nodes)@,
            pv@ == path@,
            slash@ == "/"@,
            nodes_view(nodes@).len() == nodes@.len(),
            forall|j: int| 0 <= j < nodes@.len() ==> #[trigger] nodes_view(nodes@)[j] == node_view(nodes@[j]),
            locate(nodes_view(old(nodes)@), path@, 0) == locate(nodes_view(old(nodes)@), path@, i as int),
        decreases nodes@.len() - i,
    {
        let np = chars_of(nodes[i].path.as_str());
        if eq_chars(np.as_slice(), pv.as_slice()) {
            let ghost before = nodes@;
            let x = &mut nodes[i];
            proof {
                lemma_nodes_view_update(before, i as int, *final(x));
                assert(seq![i as int].len() == 1);
            }
            return Some(x);
        }
        let below = has_prefix(pv.as_slice(), np.as_slice()) && has_prefix(
            &pv.as_slice()[np.len()..pv.len()],
            slash.as_slice(),
        );
        if below && nodes[i].children.is_some() {
            proof {
                assert(descends(nodes_view(nodes@)[i as int].path, path@));
            }
            let ghost before = nodes@;
            let node = &mut nodes[i];
            let ghost fnode = *final(node);
            proof {
                lemma_nodes_view_update(before, i as int, fnode);
            }
            match &mut node.children {
                Some(c) => {
                    let ghost c0 = c@;
                    let ghost c0_vec = *c;
                    let ghost fc = *final(c);
                    proof {
                        assert(fnode.children == Some(fc));
                        assert(fnode.name == before[i as int].name);
                        assert(fnode.path == before[i as int].path);
                        assert(before[i as int].children == Some(c0_vec));
                    }
                    let r = find_node_mut(c, path);
                    proof {
                        assert(nodes_view(before)[i as int].children == Some(nodes_view(c0)));
                        assert(locate(nodes_view(before), path@, i as int) == match locate(nodes_view(c0), path@, 0) {
                            Some(p) => Some(seq![i as int] + p),
                            None => None,
                        });
                        match locate(nodes_view(c0), path@, 0) {
                            Some(p) => {
                                lemma_locate_nonempty(nodes_view(c0), path@, 0);
                                let ip = seq![i as int] + p;
                                assert(ip.drop_first() =~= p);
                                assert(ip[0] == i);
                                assert(ip.len() > 1);
                                let v = nodes_view(before);
                                assert(node_at(v, ip) == node_at(nodes_view(c0), p));
                                assert(node_view(fnode).children == Some(nodes_view(fc@)));
                            },
                            None => {
                                assert(nodes_view(before).update(i as int, node_view(fnode))
                                    =~= nodes_view(before));
                            },
                        }
                    }
                    return r;
                },
                None => {
                    return None;
                },
            }
        }
        i = i + 1;
    }
    None
}

// ---------------------------------------------------------------------------
// Visible rows
// ---------------------------------------------------------------------------

/// One visible row of the tree, with what the tree guides need: whether
/// the node is its parent's last child, and the same for each ancestor.
pub struct FlatEntry {
    pub depth: usize,
    pub name: String,
    pub path: String,
    pub is_dir: bool,
    pub expanded: bool,
    pub loading: bool,
    pub is_last_sibling: bool,
    pub ancestor_is_last: Vec<bool>,
}

pub ghost struct FlatView {
    pub depth: int,
    pub name: Seq<char>,
    pub path: Seq<char>,
    pub is_dir: bool,
    pub expanded: bool,
    pub loading: bool,
    pub is_last_sibling: bool,
    pub ancestor_is_last: Seq<bool>,
}

impl View for FlatEntry {
    type V = FlatView;

    open spec fn view(&self) -> FlatView {
        FlatView {
            depth: self.depth as int,
            name: self.name@,
            path: self.path@,
            is_dir: self.is_dir,
            expanded: self.expanded,
            loading: self.loading,
            is_last_sibling: self.is_last_sibling,
            ancestor_is_last: self.ancestor_is_last@,
        }
    }
}

pub open spec fn flat_views(v: Seq<FlatEntry>) -> Seq<FlatView> {
    v.map_values(|e: FlatEntry| e@)
}

/// The rows of `n` and, when it is expanded and loaded, of its children
/// below it; the depth is the number of ancestors.
pub open spec fn flat_node(n: NodeView, is_last: bool, anc: Seq<bool>) -> Seq<FlatView>
    decreases n, 0int,
{
    seq![
        FlatView {
            depth: anc.len() as int,
            name: n.name,
            path: n.path,
            is_dir: n.is_dir,
            expanded: n.expanded,
            loading: n.loading,
            is_last_sibling: is_last,
            ancestor_is_last: anc,
        },
    ] + if n.expanded && n.children is Some {
        flat_children(n.children->0, n.children->0.len() as int, anc.push(is_last))
    } else {
        Seq::empty()
    }
}

/// The rows of the first `k` of the siblings `s`.
pub open spec fn flat_children(s: Seq<NodeView>, k: int, anc: Seq<bool>) -> Seq<FlatView>
    decreases s, k,
{
    if k <= 0 || k > s.len() {
        Seq::empty()
    } else {
        flat_children(s, k - 1, anc) + flat_node(s[k - 1], k - 1 == s.len() - 1, anc)
    }
}

/// The visible rows of the whole tree.
pub open spec fn visible_rows(root: Option<Seq<NodeView>>) -> Seq<FlatView> {
    match root {
        Some(c) => flat_children(c, c.len() as int, Seq::empty()),
        None => Seq::empty(),
    }
}

fn copy_flags(s: &[bool]) -> (r: Vec<bool>)
    ensures
        r@ == s@,
{
    let mut r: Vec<bool> = Vec::new();
    let mut i: usize = 0;
    while i < s.len()
        invariant
            i <= s@.len(),
            r@ == s@.take(i as int),
        decreases s@.len() - i,
    {
        r.push(s[i]);
        proof {
            assert(s@.take(i + 1) =~= s@.take(i as int).push(s@[i as int]));
        }
        i = i + 1;
    }
    proof {
        assert(s@.take(i as int) =~= s@);
    }
    r
}

fn flatten_node(
    node: &FileNode,
    depth: usize,
    is_last: bool,
    ancestor_is_last: &[bool],
    out: &mut Vec<FlatEntry>,
)
    requires
        depth == ancestor_is_last@.len(),
    ensures
        flat_views(final(out)@) == flat_views(old(out)@) + flat_node(
            node_view(*node),
            is_last,
            ancestor_is_last@,
        ),
    decreases *node,
{
    let ghost base = flat_views(out@);
    out.push(
        FlatEntry {
            depth,
            name: node.name.clone(),
            path: node.path.clone(),
            is_dir: node.is_dir,
            expanded: node.expanded,
            loading: node.loading,
            is_last_sibling: is_last,
            ancestor_is_last: copy_flags(ancestor_is_last),
        },
    );
    let ghost head = flat_node(node_view(*node), is_last, ancestor_is_last@).take(1);
    proof {
        assert(flat_views(out@) =~= base + head);
    }
    if node.expanded {
        match &node.children {
            Some(children) => {
                let mut next = copy_flags(ancestor_is_last);
                next.push(is_last);
                let len = children.len();
                let ghost cv = nodes_view(children@);
                proof {
                    lemma_nodes_view(children@);
                }
                let mut i: usize = 0;
                while i < len
                    invariant
                        len == children@.len(),
                        node.children == Some(*children),
                        cv == nodes_view(children@),
                        cv.len() == len,
                        forall|j: int| 0 <= j < len ==> #[trigger] cv[j] == node_view(children@[j]),
                        next@ == ancestor_is_last@.push(is_last),
                        i <= len,
                        flat_views(out@) == base + head + flat_children(cv, i as int, next@),
                    decreases len - i,
                {
                    let child_is_last = i == len - 1;
                    let ghost before = flat_views(out@);
                    proof {
                        let kids = *children;
                        assert(decreases_to!(*node => node.children));
                        assert(decreases_to!(node.children => node.children->0));
                        assert(decreases_to!(kids => kids@));
                        assert(decreases_to!(kids@ => kids@[i as int]));
                    }
                    flatten_node(&children[i], next.len(), child_is_last, next.as_slice(), out);
                    proof {
                        assert(flat_views(out@) =~= base + head + flat_children(cv, i + 1, next@));
                    }
                    i = i + 1;
                }
                proof {
                    assert(flat_node(node_view(*node), is_last, ancestor_is_last@) =~= head
                        + flat_children(cv, len as int, next@));
                }
            },
            None => {
                proof {
                    assert(flat_node(node_view(*node), is_last, ancestor_is_last@) =~= head);
                }
            },
        }
    } else {
        proof {
            assert(flat_node(node_view(*node), is_last, ancestor_is_last@) =~= head);
        }
    }
}

// ---------------------------------------------------------------------------
// Panel state
// ---------------------------------------------------------------------------

pub enum ToggleResult {
    /// The directory opened and its entries must be listed.
    Expand(String),
    /// The directory opened with entries listed before.
    ExpandCached,
    Collapse,
}

pub struct FilesState {
    pub package: String,
    pub root_children: Option<Vec<FileNode>>,
    pub selected_index: usize,
    pub error: Option<String>,
    pub action_flash: Option<(&'static str, std::time::Instant)>,
}

pub open spec fn root_view(root: Option<Vec<FileNode>>) -> Option<Seq<NodeView>> {
    match root {
        Some(v) => Some(nodes_view(v@)),
        None => None,
    }
}

pub open spec fn with_expanded(n: NodeView, expanded: bool) -> NodeView {
    NodeView { expanded, ..n }
}

/// The last row before `k` at depth `d`.
pub open spec fn last_at_depth(rows: Seq<FlatView>, k: int, d: int) -> Option<int>
    decreases k,
{
    if k <= 0 {
        None
    } else if rows[k - 1].depth == d {
        Some(k - 1)
    } else {
        last_at_depth(rows, k - 1, d)
    }
}

/// A node fresh from a directory listing: closed, not loaded.
pub open spec fn listed_node(name: Seq<char>, path: Seq<char>, is_dir: bool) -> NodeView {
    NodeView { name, path, is_dir, expanded: false, loading: false, children: None }
}

/// Nodes for listing entries `(name, is_dir)` of the directory at `dir`
/// (`None` for the top, where a path is just the name).
pub open spec fn listed_nodes(entries: Seq<(String, bool)>, dir: Option<Seq<char>>) -> Seq<NodeView> {
    entries.map_values(
        |e: (String, bool)|
            listed_node(
                e.0@,
                match dir {
                    Some(d) => d + "/"@ + e.0@,
                    None => e.0@,
                },
                e.1,
            ),
    )
}

impl FilesState {
    pub open spec fn rows(&self) -> Seq<FlatView> {
        visible_rows(root_view(self.root_children))
    }

    pub fn new(package: &str) -> (r: Self)
        ensures
            r.package@ == package@,
            r.root_children is None,
            r.selected_index == 0,
            r.error is None,
            r.action_flash is None,
    {
        Self {
            package: package.to_string(),
            root_children: None,
            selected_index: 0,
            error: None,
            action_flash: None,
        }
    }

    /// The rows of the tree as the panel shows them, top to bottom.
    pub fn flatten_visible(&self) -> (r: Vec<FlatEntry>)
        ensures
            flat_views(r@) == self.rows(),
    {
        let mut entries: Vec<FlatEntry> = Vec::new();
        match &self.root_children {
            Some(children) => {
                let len = children.len();
                let ghost cv = nodes_view(children@);
                proof {
                    lemma_nodes_view(children@);
                    assert(flat_views(entries@) =~= Seq::<FlatView>::empty());
                }
                let mut i: usize = 0;
                while i < len
                    invariant
                        len == children@.len(),
                        cv == nodes_view(children@),
                        cv.len() == len,
                        forall|j: int| 0 <= j < len ==> #[trigger] cv[j] == node_view(children@[j]),
                        i <= len,
                        flat_views(entries@) == flat_children(cv, i as int, Seq::empty()),
                    decreases len - i,
                {
                    let is_last = i == len - 1;
                    let empty: Vec<bool> = Vec::new();
                    flatten_node(&children[i], 0, is_last, empty.as_slice(), &mut entries);
                    proof {
                        assert(empty@ =~= Seq::<bool>::empty());
                        assert(flat_views(entries@) =~= flat_children(cv, i + 1, Seq::empty()));
                    }
                    i = i + 1;
                }
            },
            None => {
                proof {
                    assert(flat_views(entries@) =~= Seq::<FlatView>::empty());
                }
            },
        }
        entries
    }

    pub fn move_up(&mut self)
        ensures
            final(self).selected_index == (if old(self).selected_index > 0 {
                old(self).selected_index - 1
            } else {
                0
            }),
            nodes_opt_eq(final(self).root_children, old(self).root_children),
            final(self).error == old(self).error,
            final(self).package == old(self).package,
    {
        self.selected_index = if self.selected_index > 0 {
            self.selected_index - 1
        } else {
            0
        };
    }

    /// Moves down one row when that stays within `visible_count` rows.
    pub fn move_down(&mut self, visible_count: usize)
        ensures
            final(self).selected_index == (if visible_count > 0 && old(self).selected_index
                < visible_count - 1 {
                old(self).selected_index + 1
            } else {
                old(self).selected_index as int
            }),
            nodes_opt_eq(final(self).root_children, old(self).root_children),
            final(self).error == old(self).error,
            final(self).package == old(self).package,
    {
        if visible_count > 0 && self.selected_index < visible_count - 1 {
            self.selected_index = self.selected_index + 1;
        }
    }
}

/// Two trees with the same view.
pub open spec fn nodes_opt_eq(a: Option<Vec<FileNode>>, b: Option<Vec<FileNode>>) -> bool {
    root_view(a) == root_view(b)
}

pub ghost enum Toggle {
    Nothing,
    Expand(Seq<char>),
    ExpandCached,
    Collapse,
}

pub open spec fn toggle_view(r: Option<ToggleResult>) -> Toggle {
    match r {
        None => Toggle::Nothing,
        Some(ToggleResult::Expand(p)) => Toggle::Expand(p@),
        Some(ToggleResult::ExpandCached) => Toggle::ExpandCached,
        Some(ToggleResult::Collapse) => Toggle::Collapse,
    }
}

/// Enter on row `sel`: a directory row's node (found by its path) closes
/// when open, and otherwise opens, asking for a listing unless it has one.
pub open spec fn toggle_outcome(root: Option<Seq<NodeView>>, sel: int) -> (Toggle, Option<Seq<NodeView>>) {
    let rows = visible_rows(root);
    if sel < 0 || sel >= rows.len() || !rows[sel].is_dir {
        (Toggle::Nothing, root)
    } else {
        let p = rows[sel].path;
        match root {
            None => (Toggle::Nothing, root),
            Some(views) => match locate(views, p, 0) {
                None => (Toggle::Nothing, root),
                Some(ip) => {
                    let n = node_at(views, ip);
                    if n.expanded {
                        (Toggle::Collapse, Some(replace_at(views, ip, with_expanded(n, false))))
                    } else if n.children is Some {
                        (Toggle::ExpandCached, Some(replace_at(views, ip, with_expanded(n, true))))
                    } else {
                        (
                            Toggle::Expand(p),
                            Some(replace_at(views, ip, NodeView { expanded: true, loading: true, ..n })),
                        )
                    }
                },
            },
        }
    }
}

/// Left on row `sel`: an open directory closes; any other row below the
/// top level moves the cursor to the nearest row above it one level up.
/// Returns the new tree and cursor.
pub open spec fn collapse_outcome(root: Option<Seq<NodeView>>, sel: int) -> (Option<Seq<NodeView>>, int) {
    let rows = visible_rows(root);
    if sel < 0 || sel >= rows.len() {
        (root, sel)
    } else if rows[sel].is_dir && rows[sel].expanded {
        match root {
            None => (root, sel),
            Some(views) => match locate(views, rows[sel].path, 0) {
                None => (root, sel),
                Some(ip) => (Some(replace_at(views, ip, with_expanded(node_at(views, ip), false))), sel),
            },
        }
    } else if rows[sel].depth == 0 {
        (root, sel)
    } else {
        match last_at_depth(rows, sel, rows[sel].depth - 1) {
            Some(j) => (root, j),
            None => (root, sel),
        }
    }
}

impl FilesState {
    /// Opens or closes the directory on the selected row.
    pub fn toggle_selected(&mut self) -> (r: Option<ToggleResult>)
        ensures
            toggle_view(r) == toggle_outcome(root_view(old(self).root_children), old(self).selected_index as int).0,
            root_view(final(self).root_children) == toggle_outcome(
                root_view(old(self).root_children),
                old(self).selected_index as int,
            ).1,
            final(self).selected_index == old(self).selected_index,
            final(self).error == old(self).error,
            final(self).package == old(self).package,
    {
        let flat = self.flatten_visible();
        if self.selected_index >= flat.len() {
            return None;
        }
        proof {
            assert(flat_views(flat@)[self.selected_index as int] == flat@[self.selected_index as int]@);
        }
        let entry = &flat[self.selected_index];
        if !entry.is_dir {
            return None;
        }
        let path = entry.path.clone();
        match &mut self.root_children {
            None => None,
            Some(root) => match find_node_mut(root, path.as_str()) {
                None => None,
                Some(node) => {
                    if node.expanded {
                        node.expanded = false;
                        Some(ToggleResult::Collapse)
                    } else {
                        node.expanded = true;
                        if node.children.is_some() {
                            Some(ToggleResult::ExpandCached)
                        } else {
                            node.loading = true;
                            Some(ToggleResult::Expand(path))
                        }
                    }
                },
            },
        }
    }
}

fn new_node(name: String, path: String, is_dir: bool) -> (r: FileNode)
    ensures
        node_view(r) == listed_node(name@, path@, is_dir),
{
    FileNode { name, path, is_dir, expanded: false, children: None, loading: false }
}

/// Nodes for a listing of the directory `dir` (`None` at the top).
fn listed(entries: Vec<(String, bool)>, dir: Option<&str>) -> (r: Vec<FileNode>)
    ensures
        nodes_view(r@) == listed_nodes(
            entries@,
            match dir {
                Some(d) => Some(d@),
                None => None,
            },
        ),
{
    let ghost dv = match dir {
        Some(d) => Some(d@),
        None => None,
    };
    let ghost all = entries@;
    let total = entries.len();
    let mut out: Vec<FileNode> = Vec::new();
    let mut rest = entries;
    let mut taken: usize = 0;
    proof {
        lemma_nodes_view(out@);
        assert(rest@ =~= all.skip(0));
    }
    while rest.len() > 0
        invariant
            taken <= all.len(),
            all.len() == total,
            rest@ == all.skip(taken as int),
            nodes_view(out@) == listed_nodes(all.take(taken as int), dv),
            dv == match dir {
                Some(d) => Some(d@),
                None => None,
            },
        decreases rest@.len(),
    {
        let (name, is_dir) = rest.remove(0);
        let path = match dir {
            Some(d) => {
                let mut v = chars_of(d);
                v.push('/');
                let nv = chars_of(name.as_str());
                extend_chars(&mut v, nv.as_slice());
                proof {
                    reveal_strlit("/");
                    assert(v@ =~= d@ + "/"@ + name@);
                }
                string_from_chars(v.as_slice())
            },
            None => name.clone(),
        };
        let ghost prev = out@;
        let node = new_node(name, path, is_dir);
        let ghost nv = node_view(node);
        out.push(node);
        proof {
            assert(out@.drop_last() =~= prev);
            assert(nodes_view(out@) == nodes_view(prev).push(nv));
            assert(all.skip(taken as int)[0] == all[taken as int]);
            assert(all.take(taken + 1) =~= all.take(taken as int).push(all[taken as int]));
            assert(nodes_view(out@) =~= listed_nodes(all.take(taken + 1), dv));
            assert(rest@ =~= all.skip(taken + 1));
        }
        taken = taken + 1;
    }
    proof {
        assert(all.take(taken as int) =~= all);
    }
    out
}

fn last_row_at_depth(flat: &Vec<FlatEntry>, k: usize, d: usize) -> (r: Option<usize>)
    requires
        k <= flat@.len(),
    ensures
        match r {
            Some(j) => last_at_depth(flat_views(flat@), k as int, d as int) == Some(j as int),
            None => last_at_depth(flat_views(flat@), k as int, d as int) is None,
        },
{
    let mut i: usize = k;
    while i > 0
        invariant
            i <= k <= flat@.len(),
            last_at_depth(flat_views(flat@), k as int, d as int) == last_at_depth(
                flat_views(flat@),
                i as int,
                d as int,
            ),
        decreases i,
    {
        proof {
            assert(flat_views(flat@)[i - 1] == flat@[i - 1]@);
        }
        if flat[i - 1].depth == d {
            return Some(i - 1);
        }
        i = i - 1;
    }
    None
}

pub open spec fn root_children_set(a: FilesState, b: FilesState, entries: Vec<(String, bool)>) -> bool {
    &&& root_view(b.root_children) == Some(listed_nodes(entries@, None))
    &&& b.selected_index == a.selected_index
    &&& b.error == a.error
    &&& b.package == a.package
}

pub open spec fn children_set(a: FilesState, b: FilesState, path: Seq<char>, entries: Vec<(String, bool)>) -> bool {
    &&& root_view(b.root_children) == (match root_view(a.root_children) {
        None => None,
        Some(views) => match locate(views, path, 0) {
            None => Some(views),
            Some(ip) => Some(
                replace_at(
                    views,
                    ip,
                    NodeView {
                        loading: false,
                        children: Some(listed_nodes(entries@, Some(path))),
                        ..node_at(views, ip)
                    },
                ),
            ),
        },
    })
    &&& b.selected_index == a.selected_index
    &&& b.error == a.error
    &&& b.package == a.package
}

impl FilesState {
    /// Left: closes the open directory on the cursor, or moves the cursor
    /// up to its parent row.
    pub fn collapse_selected(&mut self)
        ensures
            root_view(final(self).root_children) == collapse_outcome(
                root_view(old(self).root_children),
                old(self).selected_index as int,
            ).0,
            final(self).selected_index == collapse_outcome(
                root_view(old(self).root_children),
                old(self).selected_index as int,
            ).1,
            final(self).error == old(self).error,
            final(self).package == old(self).package,
    {
        let flat = self.flatten_visible();
        let sel = self.selected_index;
        if sel >= flat.len() {
            return;
        }
        proof {
            assert(forall|j: int| 0 <= j < flat@.len() ==> #[trigger] flat_views(flat@)[j] == flat@[j]@);
        }
        let entry = &flat[sel];
        if entry.is_dir && entry.expanded {
            let path = entry.path.clone();
            match &mut self.root_children {
                Some(root) => match find_node_mut(root, path.as_str()) {
                    Some(node) => {
                        node.expanded = false;
                    },
                    None => {},
                },
                None => {},
            }
            return;
        }
        if entry.depth == 0 {
            return;
        }
        let target = entry.depth - 1;
        match last_row_at_depth(&flat, sel, target) {
            Some(j) => {
                self.selected_index = j;
            },
            None => {},
        }
    }

    /// The path on the cursor row.
    pub fn selected_path(&self) -> (r: Option<String>)
        ensures
            match r {
                Some(p) => 0 <= self.selected_index < self.rows().len() && p@ == self.rows()[self.selected_index as int].path,
                None => self.selected_index >= self.rows().len(),
            },
    {
        let flat = self.flatten_visible();
        if self.selected_index < flat.len() {
            proof {
                assert(flat_views(flat@)[self.selected_index as int] == flat@[self.selected_index as int]@);
            }
            Some(flat[self.selected_index].path.clone())
        } else {
            None
        }
    }

    /// Whether the cursor row is a directory.
    pub fn selected_is_dir(&self) -> (b: bool)
        ensures
            b == (self.selected_index < self.rows().len() && self.rows()[self.selected_index as int].is_dir),
    {
        let flat = self.flatten_visible();
        if self.selected_index < flat.len() {
            proof {
                assert(flat_views(flat@)[self.selected_index as int] == flat@[self.selected_index as int]@);
            }
            flat[self.selected_index].is_dir
        } else {
            false
        }
    }

    /// The top-level listing arrived: `(name, is_dir)` per entry.
    pub fn set_root_children(&mut self, entries: Vec<(String, bool)>)
        ensures
            root_children_set(*old(self), *final(self), entries),
    {
        self.root_children = Some(listed(entries, None));
    }

    /// The listing of the directory at `path` arrived: its node stops
    /// loading and takes the entries as children.
    pub fn set_children(&mut self, path: &str, entries: Vec<(String, bool)>)
        ensures
            children_set(*old(self), *final(self), path@, entries),
    {
        match &mut self.root_children {
            Some(root) => match find_node_mut(root, path) {
                Some(node) => {
                    node.loading = false;
                    node.children = Some(listed(entries, Some(path)));
                },
                None => {},
            },
            None => {},
        }
    }
}

pub open spec fn toggle_action(t: Toggle) -> Option<Seq<char>> {
    match t {
        Toggle::Expand(p) => Some(p),
        _ => None,
    }
}

pub open spec fn files_key_done(a: FilesState, b: FilesState, key: KeyEvent, r: Option<Action>) -> bool {
    &&& b.package == a.package
    &&& match key.code {
        KeyCode::Up => {
            &&& r matches Some(Action::Noop)
            &&& b.selected_index == (if a.selected_index > 0 {
                a.selected_index - 1
            } else {
                0
            })
            &&& root_view(b.root_children) == root_view(a.root_children)
            &&& b.error == a.error
        },
        KeyCode::Down => {
            &&& r matches Some(Action::Noop)
            &&& b.selected_index == (if a.selected_index + 1 < a.rows().len() {
                a.selected_index + 1
            } else {
                a.selected_index as int
            })
            &&& root_view(b.root_children) == root_view(a.root_children)
            &&& b.error == a.error
        },
        KeyCode::Enter | KeyCode::Right => {
            let rows = a.rows();
            let sel = a.selected_index as int;
            let t = toggle_outcome(root_view(a.root_children), sel);
            &&& b.selected_index == a.selected_index
            &&& b.error == a.error
            &&& if sel < rows.len() && rows[sel].is_dir {
                &&& root_view(b.root_children) == t.1
                &&& match toggle_action(t.0) {
                    Some(p) => r matches Some(Action::ExpandDir(q)) && q@ == p,
                    None => r matches Some(Action::Noop),
                }
            } else {
                &&& root_view(b.root_children) == root_view(
                    a.root_children,
                )
                &&& if sel < rows.len() {
                    r matches Some(Action::OpenFile(q)) && q@ == rows[sel].path
                } else {
                    r matches Some(Action::Noop)
                }
            }
        },
        KeyCode::Left => {
            let c = collapse_outcome(
                root_view(a.root_children),
                a.selected_index as int,
            );
            &&& r matches Some(Action::Noop)
            &&& root_view(b.root_children) == c.0
            &&& b.selected_index == c.1
            &&& b.error == a.error
        },
        KeyCode::Char('r') => {
            &&& r matches Some(Action::RefreshFiles)
            &&& b.root_children is None
            &&& b.selected_index == 0
            &&& b.error is None
        },
        KeyCode::Esc => {
            &&& r matches Some(Action::Unfocus)
            &&& root_view(b.root_children) == root_view(a.root_children)
            &&& b.selected_index == a.selected_index
            &&& b.error == a.error
        },
        _ => {
            &&& r is None
            &&& root_view(b.root_children) == root_view(a.root_children)
            &&& b.selected_index == a.selected_index
            &&& b.error == a.error
        },
    }
}

impl FilesState {
    /// Applies a key to the focused files panel.
    pub fn handle_key(&mut self, key: KeyEvent) -> (r: Option<Action>)
        ensures
            files_key_done(*old(self), *final(self), key, r),
    {
        match key.code {
            KeyCode::Up => {
                self.move_up();
                Some(Action::Noop)
            },
            KeyCode::Down => {
                let count = self.flatten_visible().len();
                self.move_down(count);
                Some(Action::Noop)
            },
            KeyCode::Enter | KeyCode::Right => {
                if self.selected_is_dir() {
                    match self.toggle_selected() {
                        Some(ToggleResult::Expand(path)) => Some(Action::ExpandDir(path)),
                        Some(_) => Some(Action::Noop),
                        None => Some(Action::Noop),
                    }
                } else {
                    match self.selected_path() {
                        Some(path) => Some(Action::OpenFile(path)),
                        None => Some(Action::Noop),
                    }
                }
            },
            KeyCode::Left => {
                self.collapse_selected();
                Some(Action::Noop)
            },
            KeyCode::Char('r') => {
                self.error = None;
                self.root_children = None;
                self.selected_index = 0;
                Some(Action::RefreshFiles)
            },
            KeyCode::Esc => Some(Action::Unfocus),
            _ => None,
        }
    }
}

// ---------------------------------------------------------------------------
// Showing a file
// ---------------------------------------------------------------------------

/// Largest file whose text the detail view shows.
pub const MAX_DETAIL_BYTES: u64 = 1024 * 1024;

/// How a file's contents can be shown.
#[derive(Debug, Clone, PartialEq, Eq)]
pub enum DetailKind {
    Text { language: &'static str, content: String },
    Binary { reason: &'static str },
    TooLarge { size_bytes: u64 },
}

/// What the detail view will do with a file, decided from its name and size.
#[derive(Debug, Clone, Copy, PartialEq, Eq)]
pub enum DetailKindHint {
    Text(&'static str),
    Binary(&'static str),
    TooLarge,
}

pub ghost enum HintView {
    Text(Seq<char>),
    Binary(Seq<char>),
    TooLarge,
}

pub open spec fn hint_view(h: DetailKindHint) -> HintView {
    match h {
        DetailKindHint::Text(l) => HintView::Text(l@),
        DetailKindHint::Binary(r) => HintView::Binary(r@),
        DetailKindHint::TooLarge => HintView::TooLarge,
    }
}

/// The last component of `path` as `std::path::Path::file_name` gives it
/// (`None` for a path ending in `..`, or with no component).
pub uninterp spec fn path_file_name(path: Seq<char>) -> Option<Seq<char>>;

/// `std::path::Path::file_name`, for a path given as text.
#[verifier::external_body]
pub(crate) fn file_name_of(path: &str) -> (r: Option<String>)
    ensures
        match r {
            Some(s) => path_file_name(path@) == Some(s@),
            None => path_file_name(path@) is None,
        },
{
    std::path::Path::new(path).file_name().map(|n| n.to_string_lossy().into_owned())
}

/// The extension of a file name, as `Path::extension` documents it: the
/// text after the last `.`, unless there is no `.` or the only one starts
/// the name.
pub open spec fn extension_of(name: Seq<char>) -> Option<Seq<char>> {
    match rfind(name, "."@) {
        None => None,
        Some(i) => if i == 0 {
            None
        } else {
            Some(name.skip(i + 1))
        },
    }
}

/// The lowercased extension of `path`, or empty.
pub open spec fn path_ext(path: Seq<char>) -> Seq<char> {
    match path_file_name(path) {
        Some(n) => match extension_of(n) {
            Some(e) => ascii_lower_seq(e),
            None => Seq::empty(),
        },
        None => Seq::empty(),
    }
}

/// The highlighting language for a text extension.
pub open spec fn text_language(ext: Seq<char>) -> Option<Seq<char>> {
    if ext == "json"@ {
        Some("json"@)
    } else if ext == "xml"@ || ext == "html"@ || ext == "htm"@ {
        Some("xml"@)
    } else if ext == "txt"@ || ext == "log"@ || ext == "md"@ {
        Some("text"@)
    } else if ext == "csv"@ || ext == "tsv"@ {
        Some("csv"@)
    } else if ext == "yml"@ || ext == "yaml"@ {
        Some("yaml"@)
    } else if ext == "toml"@ {
        Some("toml"@)
    } else if ext == "ini"@ || ext == "properties"@ || ext == "conf"@ || ext == "cfg"@ {
        Some("ini"@)
    } else if ext == "sh"@ {
        Some("sh"@)
    } else if ext == "sql"@ {
        Some("sql"@)
    } else {
        None
    }
}

/// Why a file with a non-text extension is not shown.
pub open spec fn binary_reason(ext: Seq<char>) -> Seq<char> {
    if ext == "png"@ || ext == "jpg"@ || ext == "jpeg"@ || ext == "webp"@ || ext == "gif"@ || ext
        == "bmp"@ || ext == "svg"@ {
        "image"@
    } else if ext == "db"@ || ext == "db-wal"@ || ext == "db-shm"@ || ext == "sqlite"@ || ext
        == "sqlite3"@ {
        "sqlite database"@
    } else if ext == "apk"@ || ext == "zip"@ || ext == "jar"@ || ext == "dex"@ || ext == "so"@
        || ext == "bin"@ {
        "binary file"@
    } else {
        "unknown format, showing meta only"@
    }
}

pub open spec fn classify_spec(path: Seq<char>, size_bytes: u64) -> HintView {
    match text_language(path_ext(path)) {
        Some(lang) => if size_bytes > MAX_DETAIL_BYTES {
            HintView::TooLarge
        } else {
            HintView::Text(lang)
        },
        None => HintView::Binary(binary_reason(path_ext(path))),
    }
}

fn ext_is(ext: &[char], candidates: &[&str]) -> (b: bool)
    ensures
        b == exists|k: int| 0 <= k < candidates@.len() && ext@ == #[trigger] candidates@[k]@,
{
    let mut k: usize = 0;
    while k < candidates.len()
        invariant
            k <= candidates@.len(),
            forall|j: int| 0 <= j < k ==> ext@ != #[trigger] candidates@[j]@,
        decreases candidates@.len() - k,
    {
        let c = chars_of(candidates[k]);
        if eq_chars(ext, c.as_slice()) {
            return true;
        }
        k = k + 1;
    }
    false
}

fn lowered_extension(path: &str) -> (r: Vec<char>)
    ensures
        r@ == path_ext(path@),
{
    match file_name_of(path) {
        Some(name) => {
            let nv = chars_of(name.as_str());
            let nl = nv.len();
            let dot = chars_of(".");
            match rfind_slice(nv.as_slice(), dot.as_slice()) {
                Some(i) => {
                    proof {
                        reveal_strlit(".");
                        lemma_rfind_upto_range(nv@, dot@, nv@.len() - 1);
                        assert(occurs_at(nv@, dot@, i as int));
                    }
                    if i == 0 {
                        Vec::new()
                    } else {
                        let e = &nv.as_slice()[i + 1..nl];
                        proof {
                            assert(e@ =~= nv@.skip(i + 1));
                        }
                        ascii_lower_vec(e)
                    }
                },
                None => Vec::new(),
            }
        },
        None => Vec::new(),
    }
}

/// Decides how the detail view treats a file.
pub fn classify(path: &str, size_bytes: u64) -> (r: DetailKindHint)
    ensures
        hint_view(r) == classify_spec(path@, size_bytes),
{
    let ext = lowered_extension(path);
    let e = ext.as_slice();
    let lang: Option<&'static str> = if ext_is(e, &["json"]) {
        Some("json")
    } else if ext_is(e, &["xml", "html", "htm"]) {
        Some("xml")
    } else if ext_is(e, &["txt", "log", "md"]) {
        Some("text")
    } else if ext_is(e, &["csv", "tsv"]) {
        Some("csv")
    } else if ext_is(e, &["yml", "yaml"]) {
        Some("yaml")
    } else if ext_is(e, &["toml"]) {
        Some("toml")
    } else if ext_is(e, &["ini", "properties", "conf", "cfg"]) {
        Some("ini")
    } else if ext_is(e, &["sh"]) {
        Some("sh")
    } else if ext_is(e, &["sql"]) {
        Some("sql")
    } else {
        None
    };
    match lang {
        Some(l) => {
            if size_bytes > MAX_DETAIL_BYTES {
                DetailKindHint::TooLarge
            } else {
                DetailKindHint::Text(l)
            }
        },
        None => {
            let reason: &'static str = if ext_is(e, &["png", "jpg", "jpeg", "webp", "gif", "bmp", "svg"]) {
                "image"
            } else if ext_is(e, &["db", "db-wal", "db-shm", "sqlite", "sqlite3"]) {
                "sqlite database"
            } else if ext_is(e, &["apk", "zip", "jar", "dex", "so", "bin"]) {
                "binary file"
            } else {
                "unknown format, showing meta only"
            };
            DetailKindHint::Binary(reason)
        },
    }
}

/// The name shown for a path: its last component, or the whole path.
pub fn file_name(path: &str) -> (r: String)
    ensures
        r@ == match path_file_name(path@) {
            Some(n) => n,
            None => path@,
        },
{
    match file_name_of(path) {
        Some(n) => n,
        None => path.to_string(),
    }
}

} // verus!
