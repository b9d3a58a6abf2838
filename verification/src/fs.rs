//! An in-memory file tree: directories hold files and directories in the
//! order they were added, and a path names a directory by the names on
//! the way from the root.

use vstd::prelude::*;
use crate::strings::{chars_of, same_text, string_from_utf8};

verus! {

/// A file with its bytes, or a directory with its entries.
pub enum Node {
    File { name: String, data: Vec<u8> },
    Directory { name: String, children: Vec<Node> },
}

/// A node as a mathematical value.
pub enum NodeView {
    File { name: Seq<char>, data: Seq<u8> },
    Directory { name: Seq<char>, children: Seq<NodeView> },
}

/// The tree below `node` as a mathematical value.
pub open spec fn node_view(node: Node) -> NodeView
    decreases node,
{
    match node {
        Node::File { name, data } => NodeView::File { name: name@, data: data@ },
        Node::Directory { name, children } => NodeView::Directory {
            name: name@,
            children: Seq::new(
                children@.len(),
                |i: int|
                    if 0 <= i < children@.len() {
                        node_view(children@[i])
                    } else {
                        arbitrary()
                    },
            ),
        },
    }
}

impl View for Node {
    type V = NodeView;

    open spec fn view(&self) -> NodeView {
        node_view(*self)
    }
}

/// The nodes of a list as mathematical values, in order.
pub open spec fn views(nodes: Seq<Node>) -> Seq<NodeView> {
    Seq::new(nodes.len(), |i: int| nodes[i]@)
}

/// A directory's view holds the views of its children.
pub proof fn lemma_directory_view(node: Node)
    requires
        node is Directory,
    ensures
        node@ == (NodeView::Directory {
            name: node->Directory_name@,
            children: views(node->Directory_children@),
        }),
{
    let children = node->Directory_children;
    assert(node@ is Directory);
    assert(node@->Directory_name == node->Directory_name@);
    assert(node@->Directory_children.len() == children@.len());
    assert forall|i: int| 0 <= i < children@.len() implies node@->Directory_children[i]
        == children@[i]@ by {}
    assert(node@->Directory_children =~= views(node->Directory_children@));
}

/// Every directory's view holds the views of its children.
pub proof fn lemma_directory_views()
    ensures
        forall|node: Node|
            node is Directory ==> #[trigger] node@ == (NodeView::Directory {
                name: node->Directory_name@,
                children: views(node->Directory_children@),
            }),
        forall|node: Node|
            node is File ==> #[trigger] node@ == (NodeView::File {
                name: node->File_name@,
                data: node->File_data@,
            }),
{
    assert forall|node: Node| node is Directory implies #[trigger] node@ == (NodeView::Directory {
        name: node->Directory_name@,
        children: views(node->Directory_children@),
    }) by {
        lemma_directory_view(node);
    }
}

/// The views of a list follow a change of one entry, an entry added at
/// the end, and an entry taken out.
pub proof fn lemma_views_update()
    ensures
        forall|nodes: Seq<Node>, i: int, node: Node|
            0 <= i < nodes.len() ==> #[trigger] views(nodes.update(i, node)) == views(
                nodes,
            ).update(i, node@),
        forall|nodes: Seq<Node>, node: Node| #[trigger]
            views(nodes.push(node)) == views(nodes).push(node@),
        forall|nodes: Seq<Node>, i: int|
            0 <= i < nodes.len() ==> #[trigger] views(nodes.remove(i)) == views(nodes).remove(i),
        forall|nodes: Seq<Node>, i: int, node: Node|
            0 <= i < nodes.len() && node@ == nodes[i]@ ==> #[trigger] views(nodes.update(i, node))
                == views(nodes),
{
    assert forall|nodes: Seq<Node>, i: int, node: Node|
        0 <= i < nodes.len() && node@ == nodes[i]@ implies #[trigger] views(nodes.update(i, node))
        == views(nodes) by {
        assert(views(nodes.update(i, node)) =~= views(nodes));
    }
    assert forall|nodes: Seq<Node>, i: int, node: Node| 0 <= i < nodes.len() implies #[trigger] views(
        nodes.update(i, node),
    ) == views(nodes).update(i, node@) by {
        assert(views(nodes.update(i, node)) =~= views(nodes).update(i, node@));
    }
    assert forall|nodes: Seq<Node>, node: Node| #[trigger]
        views(nodes.push(node)) == views(nodes).push(node@) by {
        assert(views(nodes.push(node)) =~= views(nodes).push(node@));
    }
    assert forall|nodes: Seq<Node>, i: int| 0 <= i < nodes.len() implies #[trigger] views(
        nodes.remove(i),
    ) == views(nodes).remove(i) by {
        assert(views(nodes.remove(i)) =~= views(nodes).remove(i));
    }
}

/// First index from `from` on whose entry has the wanted name and, where
/// `dirs_only` is set, is a directory.
pub open spec fn first_named(
    children: Seq<NodeView>,
    name: Seq<char>,
    dirs_only: bool,
    from: int,
) -> Option<int>
    decreases children.len() - from,
{
    if from < 0 || from >= children.len() {
        None
    } else if children[from].name() == name && (!dirs_only || children[from].is_dir()) {
        Some(from)
    } else {
        first_named(children, name, dirs_only, from + 1)
    }
}

/// What the first match is: a matching entry with none before it; and
/// where there is no match, no entry matches.
pub proof fn lemma_first_named(children: Seq<NodeView>, name: Seq<char>, dirs_only: bool, from: int)
    requires
        0 <= from,
    ensures
        match first_named(children, name, dirs_only, from) {
            Some(i) => {
                &&& from <= i < children.len()
                &&& children[i].name() == name
                &&& !dirs_only || children[i].is_dir()
                &&& forall|j: int|
                    from <= j < i ==> !((#[trigger] children[j]).name() == name && (!dirs_only
                        || children[j].is_dir()))
            },
            None => forall|j: int|
                from <= j < children.len() ==> !((#[trigger] children[j]).name() == name && (
                !dirs_only || children[j].is_dir())),
        },
    decreases children.len() - from,
{
    if from < children.len() && !(children[from].name() == name && (!dirs_only
        || children[from].is_dir())) {
        lemma_first_named(children, name, dirs_only, from + 1);
    }
}

/// State of a scan that cuts a path at its slashes: the parts completed
/// so far and the characters of the part in progress.
pub open spec fn scanned_path(path: Seq<char>) -> (Seq<Seq<char>>, Seq<char>)
    decreases path.len(),
{
    if path.len() == 0 {
        (Seq::empty(), Seq::empty())
    } else {
        let (parts, current) = scanned_path(path.drop_last());
        if path.last() == '/' {
            if current.len() > 0 {
                (parts.push(current), Seq::empty())
            } else {
                (parts, current)
            }
        } else {
            (parts, current.push(path.last()))
        }
    }
}

/// The names a path consists of: its maximal runs of characters other
/// than the slash, in order.
pub open spec fn path_parts(path: Seq<char>) -> Seq<Seq<char>> {
    let (parts, current) = scanned_path(path);
    if current.len() > 0 {
        parts.push(current)
    } else {
        parts
    }
}

/// The characters of each part.
pub open spec fn part_views(parts: Seq<Vec<char>>) -> Seq<Seq<char>> {
    Seq::new(parts.len(), |i: int| parts[i]@)
}

/// Cuts a path into its names.
pub fn split_path(path: &str) -> (parts: Vec<Vec<char>>)
    ensures
        part_views(parts@) == path_parts(path@),
{
    let chars = chars_of(path);
    let mut parts: Vec<Vec<char>> = Vec::new();
    let mut current: Vec<char> = Vec::new();
    let mut i: usize = 0;
    proof {
        assert(chars@.take(0) =~= Seq::<char>::empty());
        assert(part_views(parts@) =~= Seq::<Seq<char>>::empty());
    }
    while i < chars.len()
        invariant
            i <= chars.len(),
            chars@ == path@,
            (part_views(parts@), current@) == scanned_path(chars@.take(i as int)),
        decreases chars.len() - i,
    {
        proof {
            assert(chars@.take(i + 1).drop_last() =~= chars@.take(i as int));
        }
        let ghost before = part_views(parts@);
        if chars[i] == '/' {
            if current.len() > 0 {
                let ghost done = current@;
                parts.push(current);
                current = Vec::new();
                proof {
                    assert(part_views(parts@) =~= before.push(done));
                }
            }
        } else {
            current.push(chars[i]);
        }
        i = i + 1;
    }
    proof {
        assert(chars@.take(chars.len() as int) =~= chars@);
    }
    if current.len() > 0 {
        let ghost before = part_views(parts@);
        let ghost done = current@;
        parts.push(current);
        proof {
            assert(part_views(parts@) =~= before.push(done));
        }
    }
    parts
}

impl NodeView {
    /// The node's name.
    pub open spec fn name(self) -> Seq<char> {
        match self {
            NodeView::File { name, .. } => name,
            NodeView::Directory { name, .. } => name,
        }
    }

    /// True for a directory.
    pub open spec fn is_dir(self) -> bool {
        self is Directory
    }

    /// The node reached from this one by entering, name by name, the
    /// first directory of that name; `None` where a name leads nowhere.
    pub open spec fn descend(self, parts: Seq<Seq<char>>) -> Option<NodeView>
        decreases parts.len(),
    {
        if parts.len() == 0 {
            Some(self)
        } else {
            match self {
                NodeView::Directory { children, .. } => match first_named(
                    children,
                    parts[0],
                    true,
                    0,
                ) {
                    Some(i) => children[i].descend(parts.drop_first()),
                    None => None,
                },
                NodeView::File { .. } => None,
            }
        }
    }

    /// This tree with the node that `parts` leads to replaced by `new`;
    /// the tree itself where `parts` leads nowhere.
    pub open spec fn replaced(self, parts: Seq<Seq<char>>, new: NodeView) -> NodeView
        decreases parts.len(),
    {
        if parts.len() == 0 {
            new
        } else {
            match self {
                NodeView::Directory { name, children } => match first_named(
                    children,
                    parts[0],
                    true,
                    0,
                ) {
                    Some(i) => NodeView::Directory {
                        name,
                        children: children.update(i, children[i].replaced(parts.drop_first(), new)),
                    },
                    None => self,
                },
                NodeView::File { .. } => self,
            }
        }
    }

    /// The directory at `path`, if the path leads to one.
    pub open spec fn dir_at(self, path: Seq<char>) -> Option<NodeView> {
        match self.descend(path_parts(path)) {
            Some(node) => if node.is_dir() {
                Some(node)
            } else {
                None
            },
            None => None,
        }
    }

    /// This tree with the node at `path` replaced by `new`.
    pub open spec fn with_node_at(self, path: Seq<char>, new: NodeView) -> NodeView {
        self.replaced(path_parts(path), new)
    }
}

/// Replacing a node by itself changes nothing.
pub proof fn lemma_replaced_by_itself(tree: NodeView, parts: Seq<Seq<char>>)
    requires
        tree.descend(parts) is Some,
    ensures
        tree.replaced(parts, tree.descend(parts).unwrap()) == tree,
    decreases parts.len(),
{
    if parts.len() > 0 {
        match tree {
            NodeView::Directory { name, children } => {
                lemma_first_named(children, parts[0], true, 0);
                let i = first_named(children, parts[0], true, 0).unwrap();
                lemma_replaced_by_itself(children[i], parts.drop_first());
                assert(children.update(
                    i,
                    children[i].replaced(
                        parts.drop_first(),
                        children[i].descend(parts.drop_first()).unwrap(),
                    ),
                ) =~= children);
            },
            NodeView::File { .. } => {},
        }
    }
}

/// After a replacement the path leads to the new node.
pub proof fn lemma_descend_replaced(tree: NodeView, parts: Seq<Seq<char>>, new: NodeView)
    requires
        tree.descend(parts) matches Some(old_node) && (parts.len() > 0 ==> (new.is_dir()
            <==> old_node.is_dir()) && new.name() == old_node.name()),
    ensures
        tree.replaced(parts, new).descend(parts) == Some(new),
    decreases parts.len(),
{
    if parts.len() > 0 {
        match tree {
            NodeView::Directory { name, children } => {
                lemma_first_named(children, parts[0], true, 0);
                let i = first_named(children, parts[0], true, 0).unwrap();
                let rest = parts.drop_first();
                let child = children[i].replaced(rest, new);
                if rest.len() > 0 {
                    lemma_descend_replaced(children[i], rest, new);
                    lemma_replaced_keeps_kind(children[i], rest, new);
                }
                let updated = children.update(i, child);
                assert(child.name() == parts[0] && child.is_dir());
                lemma_first_named(updated, parts[0], true, 0);
                assert(first_named(updated, parts[0], true, 0) == Some(i)) by {
                    let found = first_named(updated, parts[0], true, 0);
                    assert(found is Some) by {
                        if found is None {
                            assert(updated[i].name() == parts[0]);
                        }
                    }
                    let k = found.unwrap();
                    if k < i {
                        assert(updated[k] == children[k]);
                    }
                    if i < k {
                        assert(updated[i].name() == parts[0]);
                    }
                }
            },
            NodeView::File { .. } => {},
        }
    }
}

/// A replacement further down leaves a node's name and kind alone.
pub proof fn lemma_replaced_keeps_kind(tree: NodeView, parts: Seq<Seq<char>>, new: NodeView)
    requires
        parts.len() > 0,
    ensures
        tree.replaced(parts, new).name() == tree.name(),
        tree.replaced(parts, new).is_dir() == tree.is_dir(),
{
}

impl Node {
    /// The node's name.
    pub fn name(&self) -> (r: &str)
        ensures
            r@ == self@.name(),
    {
        match self {
            Node::File { name, .. } => name.as_str(),
            Node::Directory { name, .. } => name.as_str(),
        }
    }

    /// Tells whether the node is a directory.
    pub fn is_dir(&self) -> (r: bool)
        ensures
            r == self@.is_dir(),
    {
        match self {
            Node::File { .. } => false,
            Node::Directory { .. } => true,
        }
    }
}

/// Tells whether `s` consists of the characters `chars`.
fn text_is(s: &str, chars: &Vec<char>) -> (r: bool)
    ensures
        r == (s@ == chars@),
{
    let own = chars_of(s);
    if own.len() != chars.len() {
        return false;
    }
    let mut i: usize = 0;
    while i < own.len()
        invariant
            i <= own.len(),
            own.len() == chars.len(),
            own@ == s@,
            forall|k: int| 0 <= k < i ==> own@[k] == chars@[k],
        decreases own.len() - i,
    {
        if own[i] != chars[i] {
            proof {
                assert(s@[i as int] != chars@[i as int]);
            }
            return false;
        }
        i = i + 1;
    }
    proof {
        assert(s@ =~= chars@);
    }
    true
}

/// Index of the first directory among `children` that is called `name`.
fn position_of_dir(children: &Vec<Node>, name: &Vec<char>) -> (r: Option<usize>)
    ensures
        match r {
            Some(i) => first_named(views(children@), name@, true, 0) == Some(i as int) && i
                < children.len(),
            None => first_named(views(children@), name@, true, 0) is None,
        },
{
    let mut i: usize = 0;
    while i < children.len()
        invariant
            i <= children.len(),
            first_named(views(children@), name@, true, 0) == first_named(
                views(children@),
                name@,
                true,
                i as int,
            ),
        decreases children.len() - i,
    {
        if text_is(children[i].name(), name) && children[i].is_dir() {
            return Some(i);
        }
        i = i + 1;
    }
    None
}

/// Index of the first entry among `children` that is called `name`,
/// whatever its kind.
fn position_of(children: &Vec<Node>, name: &str) -> (r: Option<usize>)
    ensures
        match r {
            Some(i) => first_named(views(children@), name@, false, 0) == Some(i as int) && i
                < children.len(),
            None => first_named(views(children@), name@, false, 0) is None,
        },
{
    let mut i: usize = 0;
    while i < children.len()
        invariant
            i <= children.len(),
            first_named(views(children@), name@, false, 0) == first_named(
                views(children@),
                name@,
                false,
                i as int,
            ),
        decreases children.len() - i,
    {
        if same_text(children[i].name(), name) {
            return Some(i);
        }
        i = i + 1;
    }
    None
}

/// Follows `parts[depth..]` down from `node`.
fn descend_mut<'a>(node: &'a mut Node, parts: &Vec<Vec<char>>, depth: usize) -> (r: Option<
    &'a mut Node,
>)
    requires
        depth <= parts.len(),
    ensures
        r matches Some(found) ==> old(node)@.descend(part_views(parts@).skip(depth as int))
            == Some(found@),
        r matches Some(found) ==> final(node)@ == old(node)@.replaced(
            part_views(parts@).skip(depth as int),
            final(found)@,
        ),
        r is None ==> old(node)@.descend(part_views(parts@).skip(depth as int)) is None,
        r is None ==> final(node)@ == old(node)@,
    decreases parts.len() - depth,
{
    let ghost rest = part_views(parts@).skip(depth as int);
    if depth == parts.len() {
        return Some(node);
    }
    proof {
        assert(rest[0] == parts@[depth as int]@);
        assert(rest.drop_first() =~= part_views(parts@).skip(depth + 1));
        lemma_directory_views();
        lemma_views_update();
    }
    match node {
        Node::Directory { name, children } => {
            match position_of_dir(children, &parts[depth]) {
                Some(idx) => descend_mut(&mut children[idx], parts, depth + 1),
                None => None,
            }
        },
        Node::File { .. } => None,
    }
}

/// The node at `path`, to be read or changed in place: the root for a
/// path without names, else the directory reached by entering, name by
/// name, the first directory of that name. What the caller does to the
/// node it does to the tree.
pub fn find_dir_mut<'a>(root: &'a mut Node, path: &str) -> (r: Option<&'a mut Node>)
    ensures
        match r {
            Some(found) => {
                &&& old(root)@.descend(path_parts(path@)) == Some(found@)
                &&& final(root)@ == old(root)@.with_node_at(path@, final(found)@)
            },
            None => {
                &&& old(root)@.descend(path_parts(path@)) is None
                &&& final(root)@ == old(root)@
            },
        },
{
    let parts = split_path(path);
    proof {
        assert(part_views(parts@).skip(0) =~= part_views(parts@));
    }
    descend_mut(root, &parts, 0)
}

/// First index from `from` on whose entry is a file with the wanted name.
pub open spec fn first_file_named(children: Seq<NodeView>, name: Seq<char>, from: int) -> Option<
    int,
>
    decreases children.len() - from,
{
    if from < 0 || from >= children.len() {
        None
    } else if children[from].name() == name && !children[from].is_dir() {
        Some(from)
    } else {
        first_file_named(children, name, from + 1)
    }
}

/// What the first file of a name is: a file of that name with none
/// before it; and where there is none, no entry is such a file.
pub proof fn lemma_first_file_named(children: Seq<NodeView>, name: Seq<char>, from: int)
    requires
        0 <= from,
    ensures
        match first_file_named(children, name, from) {
            Some(i) => {
                &&& from <= i < children.len()
                &&& children[i].name() == name
                &&& !children[i].is_dir()
                &&& forall|j: int|
                    from <= j < i ==> !((#[trigger] children[j]).name() == name
                        && !children[j].is_dir())
            },
            None => forall|j: int|
                from <= j < children.len() ==> !((#[trigger] children[j]).name() == name
                    && !children[j].is_dir()),
        },
    decreases children.len() - from,
{
    if from < children.len() && !(children[from].name() == name && !children[from].is_dir()) {
        lemma_first_file_named(children, name, from + 1);
    }
}

/// What a directory listing says of one entry.
pub open spec fn listing_of(children: Seq<NodeView>) -> Seq<(Seq<char>, bool)> {
    Seq::new(children.len(), |i: int| (children[i].name(), children[i].is_dir()))
}

/// The entries of a listing as mathematical values.
pub open spec fn listing_view(entries: Seq<(String, bool)>) -> Seq<(Seq<char>, bool)> {
    Seq::new(entries.len(), |i: int| (entries[i].0@, entries[i].1))
}

/// Facts about one entry of a directory.
pub struct NodeInfo {
    pub name: String,
    pub is_dir: bool,
    /// Bytes of a file; 0 for a directory.
    pub size: usize,
    /// Entries of a directory; 0 for a file.
    pub child_count: usize,
}

impl NodeView {
    /// The entries of a directory; none for a file.
    pub open spec fn children(self) -> Seq<NodeView> {
        match self {
            NodeView::Directory { children, .. } => children,
            NodeView::File { .. } => Seq::empty(),
        }
    }

    /// The bytes of a file; none for a directory.
    pub open spec fn data(self) -> Seq<u8> {
        match self {
            NodeView::File { data, .. } => data,
            NodeView::Directory { .. } => Seq::empty(),
        }
    }

    /// This directory with other entries.
    pub open spec fn with_children(self, children: Seq<NodeView>) -> NodeView {
        NodeView::Directory { name: self.name(), children }
    }

    /// This node under another name.
    pub open spec fn renamed(self, name: Seq<char>) -> NodeView {
        match self {
            NodeView::File { data, .. } => NodeView::File { name, data },
            NodeView::Directory { children, .. } => NodeView::Directory { name, children },
        }
    }

    /// A directory can be made: `path` leads to a directory that has no
    /// entry called `name`.
    pub open spec fn can_mkdir(self, path: Seq<char>, name: Seq<char>) -> bool {
        self.dir_at(path) matches Some(dir) && first_named(dir.children(), name, false, 0) is None
    }

    /// The tree after `mkdir`: where it can be made, an empty directory
    /// called `name` is the last entry of the directory at `path`.
    pub open spec fn after_mkdir(self, path: Seq<char>, name: Seq<char>) -> NodeView {
        if self.can_mkdir(path, name) {
            let dir = self.dir_at(path).unwrap();
            self.with_node_at(
                path,
                dir.with_children(
                    dir.children().push(NodeView::Directory { name, children: Seq::empty() }),
                ),
            )
        } else {
            self
        }
    }

    /// The entries of a directory after `file` was put into it: in the
    /// place of the first entry of its name, or at the end.
    pub open spec fn entries_with(children: Seq<NodeView>, file: NodeView) -> Seq<NodeView> {
        match first_named(children, file.name(), false, 0) {
            Some(i) => children.update(i, file),
            None => children.push(file),
        }
    }

    /// The tree after `touch`: where `path` leads to a directory, the
    /// file stands in it, in the place of the first entry of its name or
    /// at the end.
    pub open spec fn after_touch(self, path: Seq<char>, name: Seq<char>, data: Seq<u8>) -> NodeView {
        match self.dir_at(path) {
            Some(dir) => self.with_node_at(
                path,
                dir.with_children(
                    NodeView::entries_with(dir.children(), NodeView::File { name, data }),
                ),
            ),
            None => self,
        }
    }

    /// The entries of a directory without the first one called `name`.
    pub open spec fn entries_without(children: Seq<NodeView>, name: Seq<char>) -> Seq<NodeView> {
        match first_named(children, name, false, 0) {
            Some(i) => children.remove(i),
            None => children,
        }
    }

    /// The entry called `name` of the directory at `path`: the first of
    /// that name.
    pub open spec fn entry_at(self, path: Seq<char>, name: Seq<char>) -> Option<NodeView> {
        match self.dir_at(path) {
            Some(dir) => match first_named(dir.children(), name, false, 0) {
                Some(i) => Some(dir.children()[i]),
                None => None,
            },
            None => None,
        }
    }

    /// The tree after `rm`: the directory at `path` has lost its first
    /// entry called `name`, if there is such a directory and entry.
    pub open spec fn after_rm(self, path: Seq<char>, name: Seq<char>) -> NodeView {
        match self.dir_at(path) {
            Some(dir) => self.with_node_at(
                path,
                dir.with_children(NodeView::entries_without(dir.children(), name)),
            ),
            None => self,
        }
    }

    /// The tree after `node` was placed in the directory at `path`: it is
    /// the last entry there, and the first earlier entry of its name is
    /// gone. Without such a directory the tree stays as it is.
    pub open spec fn after_place(self, path: Seq<char>, node: NodeView) -> NodeView {
        match self.dir_at(path) {
            Some(dir) => self.with_node_at(
                path,
                dir.with_children(
                    NodeView::entries_without(dir.children(), node.name()).push(node),
                ),
            ),
            None => self,
        }
    }

    /// The bytes `read` returns: those of the first file called `name` in
    /// the directory at `path`.
    pub open spec fn file_at(self, path: Seq<char>, name: Seq<char>) -> Option<Seq<u8>> {
        match self.dir_at(path) {
            Some(dir) => match first_file_named(dir.children(), name, 0) {
                Some(i) => Some(dir.children()[i].data()),
                None => None,
            },
            None => None,
        }
    }
}

/// Views of no nodes are no views.
pub proof fn lemma_views_empty()
    ensures
        views(Seq::<Node>::empty()) == Seq::<NodeView>::empty(),
{
    assert(views(Seq::<Node>::empty()) =~= Seq::<NodeView>::empty());
}

/// A path that leads somewhere: replacing the node it leads to by that
/// very node changes nothing.
proof fn lemma_unchanged_dir(tree: NodeView, path: Seq<char>)
    ensures
        tree.descend(path_parts(path)) matches Some(node) ==> tree.with_node_at(path, node) == tree,
{
    if tree.descend(path_parts(path)) is Some {
        lemma_replaced_by_itself(tree, path_parts(path));
    }
}

/// Removing an entry that is not there changes nothing.
pub proof fn lemma_rm_misses(tree: NodeView, path: Seq<char>, name: Seq<char>)
    requires
        tree.entry_at(path, name) is None,
    ensures
        tree.after_rm(path, name) == tree,
{
    if tree.dir_at(path) is Some {
        let dir = tree.dir_at(path).unwrap();
        lemma_replaced_by_itself(tree, path_parts(path));
        assert(dir.with_children(NodeView::entries_without(dir.children(), name)) == dir);
    }
}

/// The node at `path`, for reading.
pub fn find_dir<'a>(root: &'a Node, path: &str) -> (r: Option<&'a Node>)
    ensures
        match r {
            Some(found) => root@.descend(path_parts(path@)) == Some(found@),
            None => root@.descend(path_parts(path@)) is None,
        },
{
    let parts = split_path(path);
    let mut node = root;
    let mut depth: usize = 0;
    proof {
        assert(part_views(parts@).skip(0) =~= part_views(parts@));
    }
    while depth < parts.len()
        invariant
            depth <= parts.len(),
            part_views(parts@) == path_parts(path@),
            root@.descend(path_parts(path@)) == node@.descend(
                part_views(parts@).skip(depth as int),
            ),
        decreases parts.len() - depth,
    {
        proof {
            let rest = part_views(parts@).skip(depth as int);
            assert(rest[0] == parts@[depth as int]@);
            assert(rest.drop_first() =~= part_views(parts@).skip(depth + 1));
            lemma_directory_views();
        }
        match node {
            Node::Directory { children, .. } => {
                match position_of_dir(children, &parts[depth]) {
                    Some(idx) => {
                        node = &children[idx];
                    },
                    None => {
                        return None;
                    },
                }
            },
            Node::File { .. } => {
                return None;
            },
        }
        depth = depth + 1;
    }
    Some(node)
}

/// Makes an empty directory called `name` in the directory at `path`.
/// Fails, changing nothing, where `path` leads to no directory or the
/// directory has an entry of that name.
pub fn mkdir(root: &mut Node, path: &str, name: &str) -> (made: bool)
    ensures
        made == old(root)@.can_mkdir(path@, name@),
        final(root)@ == old(root)@.after_mkdir(path@, name@),
{
    proof {
        lemma_unchanged_dir(root@, path@);
        lemma_directory_views();
        lemma_views_update();
        lemma_views_empty();
    }
    match find_dir_mut(root, path) {
        Some(dir) => match dir {
            Node::Directory { children, .. } => {
                if position_of(children, name).is_some() {
                    false
                } else {
                    children.push(Node::Directory { name: name.to_owned(), children: Vec::new() });
                    true
                }
            },
            Node::File { .. } => false,
        },
        None => false,
    }
}

/// Puts a file called `name` with the bytes `data` into the directory at
/// `path`: in the place of the first entry of that name, whatever its
/// kind, or at the end. Fails, changing nothing, where `path` leads to no
/// directory.
pub fn touch(root: &mut Node, path: &str, name: &str, data: Vec<u8>) -> (done: bool)
    ensures
        done == old(root)@.dir_at(path@) is Some,
        final(root)@ == old(root)@.after_touch(path@, name@, data@),
{
    proof {
        lemma_unchanged_dir(root@, path@);
        lemma_directory_views();
        lemma_views_update();
    }
    match find_dir_mut(root, path) {
        Some(dir) => match dir {
            Node::Directory { children, .. } => {
                match position_of(children, name) {
                    Some(pos) => {
                        children[pos] = Node::File { name: name.to_owned(), data };
                    },
                    None => {
                        children.push(Node::File { name: name.to_owned(), data });
                    },
                }
                true
            },
            Node::File { .. } => false,
        },
        None => false,
    }
}

/// Removes the first entry called `name`, with all it holds, from the
/// directory at `path`. Fails, changing nothing, where there is no such
/// directory or entry.
pub fn rm(root: &mut Node, path: &str, name: &str) -> (removed: bool)
    ensures
        removed == old(root)@.entry_at(path@, name@) is Some,
        final(root)@ == old(root)@.after_rm(path@, name@),
{
    proof {
        lemma_unchanged_dir(root@, path@);
        lemma_directory_views();
        lemma_views_update();
    }
    match find_dir_mut(root, path) {
        Some(dir) => match dir {
            Node::Directory { children, .. } => {
                match position_of(children, name) {
                    Some(pos) => {
                        let _ = children.remove(pos);
                        true
                    },
                    None => false,
                }
            },
            Node::File { .. } => false,
        },
        None => false,
    }
}

/// Lists the directory at `path`: name and kind of each entry, in order.
/// `None` where `path` leads to no directory.
pub fn ls(root: &Node, path: &str) -> (r: Option<Vec<(String, bool)>>)
    ensures
        match r {
            Some(entries) => root@.dir_at(path@) matches Some(dir) && listing_view(entries@)
                == listing_of(dir.children()),
            None => root@.dir_at(path@) is None,
        },
{
    proof {
        lemma_directory_views();
    }
    match find_dir(root, path) {
        Some(dir) => match dir {
            Node::Directory { children, .. } => {
                let mut entries: Vec<(String, bool)> = Vec::new();
                let mut i: usize = 0;
                while i < children.len()
                    invariant
                        i <= children.len(),
                        entries.len() == i,
                        forall|k: int|
                            0 <= k < i ==> (#[trigger] entries@[k]).0@ == children@[k]@.name()
                                && entries@[k].1 == children@[k]@.is_dir(),
                    decreases children.len() - i,
                {
                    entries.push((children[i].name().to_owned(), children[i].is_dir()));
                    i = i + 1;
                }
                proof {
                    assert(listing_view(entries@) =~= listing_of(views(children@)));
                }
                Some(entries)
            },
            Node::File { .. } => None,
        },
        None => None,
    }
}

/// The bytes of the first file called `name` in the directory at `path`.
/// `None` where there is no such directory or file.
pub fn read(root: &Node, path: &str, name: &str) -> (r: Option<Vec<u8>>)
    ensures
        match r {
            Some(data) => root@.file_at(path@, name@) == Some(data@),
            None => root@.file_at(path@, name@) is None,
        },
{
    proof {
        lemma_directory_views();
    }
    match find_dir(root, path) {
        Some(dir) => match dir {
            Node::Directory { children, .. } => {
                let mut i: usize = 0;
                while i < children.len()
                    invariant
                        i <= children.len(),
                        root@.dir_at(path@) == Some(dir@),
                        dir@.children() == views(children@),
                        first_file_named(views(children@), name@, 0) == first_file_named(
                            views(children@),
                            name@,
                            i as int,
                        ),
                    decreases children.len() - i,
                {
                    proof {
                        lemma_directory_views();
                    }
                    match &children[i] {
                        Node::File { name: n, data } => {
                            if same_text(n.as_str(), name) {
                                let bytes = data.clone();
                                proof {
                                    assert(bytes@ =~= data@);
                                }
                                return Some(bytes);
                            }
                        },
                        Node::Directory { .. } => {},
                    }
                    i = i + 1;
                }
                None
            },
            Node::File { .. } => None,
        },
        None => None,
    }
}

/// Name, kind and size of the first entry called `name` in the
/// directory at `path`. `None` where there is no such directory or entry.
pub fn get_node_info(root: &Node, path: &str, name: &str) -> (r: Option<NodeInfo>)
    ensures
        match r {
            Some(info) => root@.entry_at(path@, name@) matches Some(node) && info.name@
                == node.name() && info.is_dir == node.is_dir() && info.size == node.data().len()
                && info.child_count == node.children().len(),
            None => root@.entry_at(path@, name@) is None,
        },
{
    proof {
        lemma_directory_views();
    }
    match find_dir(root, path) {
        Some(dir) => match dir {
            Node::Directory { children, .. } => {
                match position_of(children, name) {
                    Some(pos) => match &children[pos] {
                        Node::File { name, data } => Some(
                            NodeInfo {
                                name: name.clone(),
                                is_dir: false,
                                size: data.len(),
                                child_count: 0,
                            },
                        ),
                        Node::Directory { name, children } => Some(
                            NodeInfo {
                                name: name.clone(),
                                is_dir: true,
                                size: 0,
                                child_count: children.len(),
                            },
                        ),
                    },
                    None => None,
                }
            },
            Node::File { .. } => None,
        },
        None => None,
    }
}

impl Node {
    /// A copy of the node with all it holds.
    pub fn duplicate(&self) -> (copy: Node)
        ensures
            copy@ == self@,
        decreases self,
    {
        proof {
            lemma_directory_views();
        }
        match self {
            Node::File { name, data } => Node::File { name: name.clone(), data: data.clone() },
            Node::Directory { name, children } => {
                let mut copies: Vec<Node> = Vec::new();
                let mut i: usize = 0;
                while i < children.len()
                    invariant
                        i <= children.len(),
                        copies.len() == i,
                        *self is Directory,
                        self->Directory_children == *children,
                        forall|k: int| 0 <= k < i ==> (#[trigger] copies@[k])@ == children@[k]@,
                    decreases children.len() - i,
                {
                    proof {
                        assert(decreases_to!(*self => self->Directory_children));
                        assert(decreases_to!(*children => children[i as int]));
                    }
                    copies.push(children[i].duplicate());
                    i = i + 1;
                }
                proof {
                    assert(views(copies@) =~= views(children@));
                }
                Node::Directory { name: name.clone(), children: copies }
            },
        }
    }

    /// Gives the node another name.
    pub fn rename(&mut self, new_name: &str)
        ensures
            final(self)@ == old(self)@.renamed(new_name@),
    {
        proof {
            lemma_directory_views();
        }
        match self {
            Node::File { name, .. } => {
                *name = new_name.to_owned();
            },
            Node::Directory { name, .. } => {
                *name = new_name.to_owned();
            },
        }
    }
}

/// Places `node` as the last entry of the directory at `path`, after
/// taking out the first entry of the same name. Fails, changing nothing,
/// where `path` leads to no directory.
pub fn place_node(root: &mut Node, path: &str, node: Node) -> (placed: bool)
    ensures
        placed == old(root)@.dir_at(path@) is Some,
        final(root)@ == old(root)@.after_place(path@, node@),
{
    proof {
        lemma_unchanged_dir(root@, path@);
        lemma_directory_views();
        lemma_views_update();
    }
    match find_dir_mut(root, path) {
        Some(dir) => match dir {
            Node::Directory { children, .. } => {
                match position_of(children, node.name()) {
                    Some(pos) => {
                        let _ = children.remove(pos);
                    },
                    None => {},
                }
                children.push(node);
                true
            },
            Node::File { .. } => false,
        },
        None => false,
    }
}

impl NodeView {
    /// The tree after `copy_node`: where the source entry exists, a copy
    /// of it under the new name is placed in the destination directory.
    pub open spec fn after_copy(
        self,
        src_path: Seq<char>,
        src_name: Seq<char>,
        dest_path: Seq<char>,
        dest_name: Seq<char>,
    ) -> NodeView {
        match self.entry_at(src_path, src_name) {
            Some(node) => self.after_place(dest_path, node.renamed(dest_name)),
            None => self,
        }
    }

    /// The tree after `move_node`: where the source entry exists it is
    /// taken out, and then placed under the new name in the destination
    /// directory, if the tree without it still has that directory.
    pub open spec fn after_move(
        self,
        src_path: Seq<char>,
        src_name: Seq<char>,
        dest_path: Seq<char>,
        dest_name: Seq<char>,
    ) -> NodeView {
        match self.entry_at(src_path, src_name) {
            Some(node) => self.after_rm(src_path, src_name).after_place(
                dest_path,
                node.renamed(dest_name),
            ),
            None => self,
        }
    }
}

/// Copies the first entry called `src_name` of the directory at
/// `src_path`, with all it holds, into the directory at `dest_path` under
/// the name `dest_name`, in place of the first entry of that name there.
/// Fails, changing nothing, where the source entry or the destination
/// directory does not exist.
pub fn copy_node(root: &mut Node, src_path: &str, src_name: &str, dest_path: &str, dest_name: &str) -> (copied:
    bool)
    ensures
        copied == (old(root)@.entry_at(src_path@, src_name@) is Some && old(root)@.dir_at(
            dest_path@,
        ) is Some),
        final(root)@ == old(root)@.after_copy(src_path@, src_name@, dest_path@, dest_name@),
{
    proof {
        lemma_directory_views();
    }
    let mut new_node = match find_dir(root, src_path) {
        Some(dir) => match dir {
            Node::Directory { children, .. } => match position_of(children, src_name) {
                Some(pos) => children[pos].duplicate(),
                None => {
                    return false;
                },
            },
            Node::File { .. } => {
                return false;
            },
        },
        None => {
            return false;
        },
    };
    new_node.rename(dest_name);
    place_node(root, dest_path, new_node)
}

/// Moves the first entry called `src_name` of the directory at
/// `src_path` into the directory at `dest_path` under the name
/// `dest_name`, in place of the first entry of that name there. Without
/// the source entry nothing changes. The entry is taken out before the
/// destination is looked up: where the tree without it has no directory
/// at `dest_path`, the move fails and the entry is lost.
pub fn move_node(root: &mut Node, src_path: &str, src_name: &str, dest_path: &str, dest_name: &str) -> (moved:
    bool)
    ensures
        moved == (old(root)@.entry_at(src_path@, src_name@) is Some && old(root)@.after_rm(
            src_path@,
            src_name@,
        ).dir_at(dest_path@) is Some),
        final(root)@ == old(root)@.after_move(src_path@, src_name@, dest_path@, dest_name@),
{
    proof {
        lemma_unchanged_dir(root@, src_path@);
        lemma_directory_views();
        lemma_views_update();
    }
    let taken = match find_dir_mut(root, src_path) {
        Some(dir) => match dir {
            Node::Directory { children, .. } => match position_of(children, src_name) {
                Some(pos) => Some(children.remove(pos)),
                None => None,
            },
            Node::File { .. } => None,
        },
        None => None,
    };
    match taken {
        Some(node) => {
            let mut src_node = node;
            src_node.rename(dest_name);
            place_node(root, dest_path, src_node)
        },
        None => false,
    }
}

/// Path of the entry called `name` in the directory whose path is `path`.
pub open spec fn child_path(path: Seq<char>, name: Seq<char>) -> Seq<char> {
    if path == seq!['/'] {
        seq!['/'] + name
    } else {
        path + seq!['/'] + name
    }
}

/// The nodes of the tree below `node` with their paths, each directory
/// before its entries and the entries in order, when `node` itself has
/// the path `path`.
pub open spec fn walked(path: Seq<char>, node: NodeView) -> Seq<(Seq<char>, NodeView)>
    decreases node, 0nat,
{
    seq![(path, node)] + match node {
        NodeView::Directory { children, .. } => walked_entries(path, children, children.len()),
        NodeView::File { .. } => Seq::empty(),
    }
}

/// The walk through the first `n` entries of a directory.
pub open spec fn walked_entries(path: Seq<char>, children: Seq<NodeView>, n: nat) -> Seq<
    (Seq<char>, NodeView),
>
    decreases children, n,
{
    if n == 0 || n > children.len() {
        Seq::empty()
    } else {
        walked_entries(path, children, (n - 1) as nat) + walked(
            child_path(path, children[n - 1].name()),
            children[n - 1],
        )
    }
}

/// The stations of a walk as mathematical values.
pub open spec fn walk_view(stations: Seq<(String, &Node)>) -> Seq<(Seq<char>, NodeView)> {
    Seq::new(stations.len(), |i: int| (stations[i].0@, stations[i].1@))
}

/// The path of an entry of a directory.
fn join_path(path: &str, name: &str) -> (r: String)
    ensures
        r@ == child_path(path@, name@),
{
    let mut r = String::new();
    proof {
        reveal_strlit("/");
        assert("/"@ =~= seq!['/']);
    }
    if !same_text(path, "/") {
        r.append(path);
    }
    r.append("/");
    r.append(name);
    proof {
        assert(r@ =~= child_path(path@, name@));
    }
    r
}

fn walk_recursive<'a>(current_path: &str, node: &'a Node, out: &mut Vec<(String, &'a Node)>)
    ensures
        walk_view(final(out)@) == walk_view(old(out)@) + walked(current_path@, node@),
    decreases node,
{
    proof {
        lemma_directory_views();
    }
    let ghost start = walk_view(out@);
    out.push((current_path.to_owned(), node));
    proof {
        assert(walk_view(out@) =~= start + seq![(current_path@, node@)]);
    }
    match node {
        Node::Directory { children, .. } => {
            let mut i: usize = 0;
            while i < children.len()
                invariant
                    i <= children.len(),
                    *node is Directory,
                    node->Directory_children == *children,
                    node@.children() == views(children@),
                    walk_view(out@) == start + seq![(current_path@, node@)] + walked_entries(
                        current_path@,
                        views(children@),
                        i as nat,
                    ),
                decreases children.len() - i,
            {
                proof {
                    assert(decreases_to!(*node => node->Directory_children));
                    assert(decreases_to!(*children => children[i as int]));
                }
                let next_path = join_path(current_path, children[i].name());
                walk_recursive(next_path.as_str(), &children[i], out);
                i = i + 1;
                proof {
                    assert(walk_view(out@) =~= start + seq![(current_path@, node@)]
                        + walked_entries(current_path@, views(children@), i as nat));
                }
            }
            proof {
                assert(walk_view(out@) =~= start + walked(current_path@, node@));
            }
        },
        Node::File { .. } => {
            proof {
                assert(walk_view(out@) =~= start + walked(current_path@, node@));
            }
        },
    }
}

/// Walks the tree below the node at `path`: every node with its path,
/// each directory before its entries. Empty where `path` leads nowhere.
pub fn walk_tree<'a>(root: &'a Node, path: &str) -> (stations: Vec<(String, &'a Node)>)
    ensures
        walk_view(stations@) == match root@.descend(path_parts(path@)) {
            Some(start) => walked(path@, start),
            None => Seq::empty(),
        },
{
    let mut stations: Vec<(String, &'a Node)> = Vec::new();
    proof {
        assert(walk_view(stations@) =~= Seq::empty());
    }
    match find_dir(root, path) {
        Some(start) => {
            walk_recursive(path, start, &mut stations);
        },
        None => {},
    }
    stations
}

/// A file of the root directory, by name and content.
pub struct FileCompatibility {
    pub name: String,
    pub data: Vec<u8>,
}

/// The files among the first `n` entries, by name and content.
pub open spec fn files_among(children: Seq<NodeView>, n: nat) -> Seq<(Seq<char>, Seq<u8>)>
    decreases n,
{
    if n == 0 || n > children.len() {
        Seq::empty()
    } else if children[n - 1].is_dir() {
        files_among(children, (n - 1) as nat)
    } else {
        files_among(children, (n - 1) as nat).push((children[n - 1].name(), children[n - 1].data()))
    }
}

/// Files by name and content, as mathematical values.
pub open spec fn files_view(files: Seq<FileCompatibility>) -> Seq<(Seq<char>, Seq<u8>)> {
    Seq::new(files.len(), |i: int| (files[i].name@, files[i].data@))
}

/// The files that stand directly in the root directory, in order; none
/// where the root is a file.
pub fn list_files(root: &Node) -> (files: Vec<FileCompatibility>)
    ensures
        files_view(files@) == files_among(root@.children(), root@.children().len()),
{
    proof {
        lemma_directory_views();
    }
    let mut files: Vec<FileCompatibility> = Vec::new();
    proof {
        assert(files_view(files@) =~= Seq::empty());
    }
    match root {
        Node::Directory { children, .. } => {
            let mut i: usize = 0;
            while i < children.len()
                invariant
                    i <= children.len(),
                    files_view(files@) == files_among(views(children@), i as nat),
                decreases children.len() - i,
            {
                proof {
                    lemma_directory_views();
                }
                let ghost before = files_view(files@);
                match &children[i] {
                    Node::File { name, data } => {
                        let bytes = data.clone();
                        proof {
                            assert(bytes@ =~= data@);
                        }
                        files.push(FileCompatibility { name: name.clone(), data: bytes });
                        proof {
                            assert(files_view(files@) =~= before.push((name@, data@)));
                        }
                    },
                    Node::Directory { .. } => {},
                }
                i = i + 1;
            }
        },
        Node::File { .. } => {},
    }
    files
}

/// First sector of the tree's image on disk.
pub const DISK_LBA_START: u32 = 10000;

/// Bytes in a sector.
pub const SECTOR_SIZE: usize = 512;

/// Bytes of an image before the tree: mark, size and version.
pub const HEADER_SIZE: usize = 14;

/// Largest image that is loaded.
pub const MAX_IMAGE_SIZE: usize = 10485760;

/// Version written into an image.
pub const IMAGE_VERSION: u8 = 1;

/// The nine bytes an image starts with.
pub open spec fn magic() -> Seq<u8> {
    seq![0x43u8, 0x48, 0x52, 0x4f, 0x4e, 0x4f, 0x53, 0x46, 0x53]
}

/// The four bytes of `x`, least significant first.
pub open spec fn le_bytes32(x: u32) -> Seq<u8> {
    seq![
        (x & 0xff) as u8,
        ((x >> 8) & 0xff) as u8,
        ((x >> 16) & 0xff) as u8,
        ((x >> 24) & 0xff) as u8,
    ]
}

/// The number whose four bytes, least significant first, are given.
pub open spec fn from_le_bytes32(b0: u8, b1: u8, b2: u8, b3: u8) -> u32 {
    (b0 as u32) | ((b1 as u32) << 8) | ((b2 as u32) << 16) | ((b3 as u32) << 24)
}

/// A string on disk: the length of its UTF-8 encoding in four bytes, then
/// the encoding.
pub open spec fn serialized_string(s: Seq<char>) -> Seq<u8> {
    le_bytes32(vstd::utf8::encode_utf8(s).len() as u32) + vstd::utf8::encode_utf8(s)
}

/// A tree on disk. A file is the byte 0, its name, the length of its
/// content in four bytes and the content; a directory is the byte 1, its
/// name, the number of its entries in four bytes and the entries.
pub open spec fn serialized(node: NodeView) -> Seq<u8>
    decreases node, 0nat,
{
    match node {
        NodeView::File { name, data } => seq![0u8] + serialized_string(name) + le_bytes32(
            data.len() as u32,
        ) + data,
        NodeView::Directory { name, children } => seq![1u8] + serialized_string(name) + le_bytes32(
            children.len() as u32,
        ) + serialized_entries(children, children.len()),
    }
}

/// The first `n` entries of a directory on disk, one after the other.
pub open spec fn serialized_entries(children: Seq<NodeView>, n: nat) -> Seq<u8>
    decreases children, n,
{
    if n == 0 || n > children.len() {
        Seq::empty()
    } else {
        serialized_entries(children, (n - 1) as nat) + serialized(children[n - 1])
    }
}

/// `count` zero bytes.
pub open spec fn zeros(count: int) -> Seq<u8> {
    Seq::new(count as nat, |i: int| 0u8)
}

/// Mark, size, version and tree, before padding. The size counts these
/// bytes and is cut to 32 bits.
pub open spec fn image_body(root: NodeView) -> Seq<u8> {
    magic() + le_bytes32((HEADER_SIZE + serialized(root).len()) as u32) + seq![IMAGE_VERSION]
        + serialized(root)
}

/// The image of a tree: its body, padded with zeros to whole sectors.
pub open spec fn disk_image(root: NodeView) -> Seq<u8> {
    image_body(root) + zeros((512 - image_body(root).len() % 512) % 512)
}

/// Appends the four bytes of `x`, least significant first.
fn push_u32_le(out: &mut Vec<u8>, x: u32)
    ensures
        final(out)@ == old(out)@ + le_bytes32(x),
{
    out.push((x & 0xff) as u8);
    out.push(((x >> 8) & 0xff) as u8);
    out.push(((x >> 16) & 0xff) as u8);
    out.push(((x >> 24) & 0xff) as u8);
    proof {
        assert(out@ =~= old(out)@ + le_bytes32(x));
    }
}

/// Appends `bytes`.
fn push_bytes(out: &mut Vec<u8>, bytes: &Vec<u8>)
    ensures
        final(out)@ == old(out)@ + bytes@,
{
    let mut i: usize = 0;
    while i < bytes.len()
        invariant
            i <= bytes.len(),
            out@ == old(out)@ + bytes@.take(i as int),
        decreases bytes.len() - i,
    {
        out.push(bytes[i]);
        i = i + 1;
        proof {
            assert(out@ =~= old(out)@ + bytes@.take(i as int));
        }
    }
    proof {
        assert(bytes@.take(bytes.len() as int) =~= bytes@);
    }
}

/// Appends a string as it stands on disk.
pub fn serialize_string(s: &str, data: &mut Vec<u8>)
    ensures
        final(data)@ == old(data)@ + serialized_string(s@),
{
    let bytes = s.as_bytes_vec();
    push_u32_le(data, #[verifier::truncate] (bytes.len() as u32));
    push_bytes(data, &bytes);
    proof {
        assert(data@ =~= old(data)@ + serialized_string(s@));
    }
}

/// Appends a tree as it stands on disk.
pub fn serialize_node(node: &Node, data: &mut Vec<u8>)
    ensures
        final(data)@ == old(data)@ + serialized(node@),
    decreases node,
{
    proof {
        lemma_directory_views();
    }
    match node {
        Node::File { name, data: file_data } => {
            data.push(0);
            serialize_string(name.as_str(), data);
            push_u32_le(data, #[verifier::truncate] (file_data.len() as u32));
            push_bytes(data, file_data);
            proof {
                assert(data@ =~= old(data)@ + serialized(node@));
            }
        },
        Node::Directory { name, children } => {
            data.push(1);
            serialize_string(name.as_str(), data);
            push_u32_le(data, #[verifier::truncate] (children.len() as u32));
            let ghost head = data@;
            proof {
                assert(head =~= old(data)@ + (seq![1u8] + serialized_string(name@) + le_bytes32(
                    children.len() as u32,
                )));
            }
            let mut i: usize = 0;
            while i < children.len()
                invariant
                    i <= children.len(),
                    *node is Directory,
                    node->Directory_children == *children,
                    data@ == head + serialized_entries(views(children@), i as nat),
                decreases children.len() - i,
            {
                proof {
                    assert(decreases_to!(*node => node->Directory_children));
                    assert(decreases_to!(*children => children[i as int]));
                }
                serialize_node(&children[i], data);
                i = i + 1;
                proof {
                    assert(data@ =~= head + serialized_entries(views(children@), i as nat));
                }
            }
            proof {
                assert(data@ =~= old(data)@ + serialized(node@));
            }
        },
    }
}

/// The image of the tree, ready to be written from sector
/// [`DISK_LBA_START`] on: mark, size, version, tree and padding.
pub fn save_to_disk(root: &Node) -> (image: Vec<u8>)
    ensures
        image@ == disk_image(root@),
        image@.len() % 512 == 0,
{
    let mut data: Vec<u8> = Vec::new();
    data.push(0x43);
    data.push(0x48);
    data.push(0x52);
    data.push(0x4f);
    data.push(0x4e);
    data.push(0x4f);
    data.push(0x53);
    data.push(0x46);
    data.push(0x53);
    push_u32_le(&mut data, 0);
    data.push(IMAGE_VERSION);
    let ghost head = data@;
    serialize_node(root, &mut data);
    let size = #[verifier::truncate] (data.len() as u32);
    data[9] = (size & 0xff) as u8;
    data[10] = ((size >> 8) & 0xff) as u8;
    data[11] = ((size >> 16) & 0xff) as u8;
    data[12] = ((size >> 24) & 0xff) as u8;
    proof {
        assert(head.len() == HEADER_SIZE);
        assert(data@ =~= image_body(root@));
    }
    let rest = data.len() % SECTOR_SIZE;
    let padding = (SECTOR_SIZE - rest) % SECTOR_SIZE;
    let mut i: usize = 0;
    while i < padding
        invariant
            i <= padding,
            padding == (512 - image_body(root@).len() % 512) % 512,
            data@ == image_body(root@) + zeros(i as int),
        decreases padding - i,
    {
        data.push(0);
        i = i + 1;
        proof {
            assert(data@ =~= image_body(root@) + zeros(i as int));
        }
    }
    proof {
        let n = image_body(root@).len() as int;
        assert((n + (512 - n % 512) % 512) % 512 == 0);
    }
    data
}

/// The 32-bit number stored at `offset`, least significant byte first.
pub open spec fn stored_u32(data: Seq<u8>, offset: int) -> u32 {
    from_le_bytes32(data[offset], data[offset + 1], data[offset + 2], data[offset + 3])
}

/// Reading a string at `offset`: the string, if one stands there, and the
/// offset where reading stopped. Reading stops at `offset` where the
/// length does not fit, behind the length where the bytes do not fit or
/// are no valid UTF-8, and behind the string otherwise.
pub open spec fn parsed_string(data: Seq<u8>, offset: int) -> (Option<Seq<char>>, int) {
    if offset < 0 || offset + 4 > data.len() {
        (None, offset)
    } else {
        let len = stored_u32(data, offset) as int;
        let start = offset + 4;
        if start + len > data.len() {
            (None, start)
        } else if !vstd::utf8::valid_utf8(data.subrange(start, start + len)) {
            (None, start)
        } else {
            (Some(vstd::utf8::decode_utf8(data.subrange(start, start + len))), start + len)
        }
    }
}

/// Reading a tree at `offset`: the tree, if one stands there, and the
/// offset where reading stopped. A kind byte of 0 announces a file, any
/// other a directory.
pub open spec fn parsed_node(data: Seq<u8>, offset: int) -> (Option<NodeView>, int)
    decreases data.len() - offset, 0nat,
{
    if offset < 0 || offset >= data.len() {
        (None, offset)
    } else {
        let (name, after_name) = parsed_string(data, offset + 1);
        if name is None {
            (None, after_name)
        } else if after_name + 4 > data.len() {
            (None, after_name)
        } else {
            let n = stored_u32(data, after_name);
            let start = after_name + 4;
            if data[offset] == 0 {
                if start + n > data.len() {
                    (None, start)
                } else {
                    (
                        Some(
                            NodeView::File {
                                name: name.unwrap(),
                                data: data.subrange(start, start + n),
                            },
                        ),
                        start + n,
                    )
                }
            } else {
                let (children, end) = parsed_entries(data, start, n as nat, Seq::empty());
                match children {
                    Some(children) => (
                        Some(NodeView::Directory { name: name.unwrap(), children }),
                        end,
                    ),
                    None => (None, end),
                }
            }
        }
    }
}

/// Reading `count` more entries at `offset` after the entries `done`:
/// all entries, if `count` trees stand there one after the other, and the
/// offset where reading stopped.
pub open spec fn parsed_entries(data: Seq<u8>, offset: int, count: nat, done: Seq<NodeView>) -> (
    Option<Seq<NodeView>>,
    int,
)
    decreases data.len() - offset, count,
{
    if count == 0 {
        (Some(done), offset)
    } else {
        let (first, next) = parsed_node(data, offset);
        match first {
            Some(node) => if offset < next <= data.len() {
                parsed_entries(data, next, (count - 1) as nat, done.push(node))
            } else {
                (None, next)
            },
            None => (None, next),
        }
    }
}

/// Reading never goes back, and a tree that was read took bytes.
pub proof fn lemma_parsed_node_advances(data: Seq<u8>, offset: int)
    ensures
        parsed_node(data, offset).1 >= offset,
        parsed_node(data, offset).0 is Some ==> offset < parsed_node(data, offset).1 <= data.len(),
    decreases data.len() - offset, 0nat,
{
    if 0 <= offset < data.len() {
        let (name, after_name) = parsed_string(data, offset + 1);
        if name is Some && after_name + 4 <= data.len() && data[offset] != 0 {
            lemma_parsed_entries_advance(
                data,
                after_name + 4,
                stored_u32(data, after_name) as nat,
                Seq::empty(),
            );
        }
    }
}

/// Reading entries never goes back.
pub proof fn lemma_parsed_entries_advance(data: Seq<u8>, offset: int, count: nat, done: Seq<NodeView>)
    ensures
        parsed_entries(data, offset, count, done).1 >= offset,
        parsed_entries(data, offset, count, done).0 is Some && offset <= data.len()
            ==> parsed_entries(data, offset, count, done).1 <= data.len(),
    decreases data.len() - offset, count,
{
    if count > 0 {
        lemma_parsed_node_advances(data, offset);
        let (first, next) = parsed_node(data, offset);
        if first is Some && offset < next <= data.len() {
            lemma_parsed_entries_advance(data, next, (count - 1) as nat, done.push(first.unwrap()));
        }
    }
}

/// The view of what a read gave.
pub open spec fn read_view(node: Option<Node>) -> Option<NodeView> {
    match node {
        Some(node) => Some(node@),
        None => None,
    }
}

/// The view of the string a read gave.
pub open spec fn read_text(s: Option<String>) -> Option<Seq<char>> {
    match s {
        Some(s) => Some(s@),
        None => None,
    }
}

/// The bytes `data[from..to]`.
fn copy_range(data: &[u8], from: usize, to: usize) -> (r: Vec<u8>)
    requires
        from <= to <= data.len(),
    ensures
        r@ == data@.subrange(from as int, to as int),
{
    let mut r: Vec<u8> = Vec::new();
    let mut i = from;
    while i < to
        invariant
            from <= i <= to <= data.len(),
            r@ == data@.subrange(from as int, i as int),
        decreases to - i,
    {
        r.push(data[i]);
        i = i + 1;
        proof {
            assert(r@ =~= data@.subrange(from as int, i as int));
        }
    }
    r
}

/// The 32-bit number stored at `offset`.
fn read_u32_le(data: &[u8], offset: usize) -> (r: u32)
    requires
        offset + 4 <= data.len(),
    ensures
        r == stored_u32(data@, offset as int),
{
    (data[offset] as u32) | ((data[offset + 1] as u32) << 8) | ((data[offset + 2] as u32) << 16) | (
    (data[offset + 3] as u32) << 24)
}

/// Reads a string at `*offset` and moves the offset to where reading
/// stopped.
pub fn deserialize_string(data: &[u8], offset: &mut usize) -> (r: Option<String>)
    ensures
        (read_text(r), *final(offset) as int) == parsed_string(data@, *old(offset) as int),
{
    if *offset > data.len() || data.len() - *offset < 4 {
        return None;
    }
    let len = read_u32_le(data, *offset) as usize;
    *offset += 4;
    if len > data.len() - *offset {
        return None;
    }
    let bytes = copy_range(data, *offset, *offset + len);
    match string_from_utf8(bytes) {
        Some(s) => {
            proof {
                vstd::utf8::encode_utf8_decode_utf8(s@);
            }
            *offset += len;
            Some(s)
        },
        None => None,
    }
}

/// Reads a tree at `*offset` and moves the offset to where reading
/// stopped.
pub fn deserialize_node(data: &[u8], offset: &mut usize) -> (r: Option<Node>)
    ensures
        (read_view(r), *final(offset) as int) == parsed_node(data@, *old(offset) as int),
    decreases data.len() - *old(offset),
{
    proof {
        lemma_directory_views();
        lemma_views_update();
        lemma_views_empty();
    }
    if *offset >= data.len() {
        return None;
    }
    let node_type = data[*offset];
    *offset += 1;
    let name = match deserialize_string(data, offset) {
        Some(name) => name,
        None => {
            return None;
        },
    };
    if data.len() - *offset < 4 {
        return None;
    }
    if node_type == 0 {
        let size = read_u32_le(data, *offset) as usize;
        *offset += 4;
        if size > data.len() - *offset {
            return None;
        }
        let file_data = copy_range(data, *offset, *offset + size);
        *offset += size;
        Some(Node::File { name, data: file_data })
    } else {
        let count = read_u32_le(data, *offset);
        *offset += 4;
        let ghost start = *offset as int;
        let ghost entries = parsed_entries(data@, start, count as nat, Seq::empty());
        let mut children: Vec<Node> = Vec::new();
        let mut i: u32 = 0;
        while i < count
            invariant
                i <= count,
                *old(offset) < *offset <= data.len(),
                start <= *offset,
                parsed_node(data@, *old(offset) as int) == (
                    match entries.0 {
                        Some(children) => Some(NodeView::Directory { name: name@, children }),
                        None => None,
                    },
                    entries.1,
                ),
                entries == parsed_entries(
                    data@,
                    *offset as int,
                    (count - i) as nat,
                    views(children@),
                ),
            decreases count - i,
        {
            proof {
                lemma_parsed_node_advances(data@, *offset as int);
                lemma_views_update();
            }
            match deserialize_node(data, offset) {
                Some(child) => {
                    children.push(child);
                },
                None => {
                    return None;
                },
            }
            i = i + 1;
        }
        proof {
            lemma_directory_views();
        }
        Some(Node::Directory { name, children })
    }
}

/// Sectors to read for the image whose first sector is `header`: the
/// sectors that hold the size written in the header, counted in eight
/// bits. `None` where the header is too short, does not start with the
/// mark, or gives a size of zero or of more than ten mebibytes.
pub fn image_sectors(header: &[u8]) -> (r: Option<u8>)
    ensures
        r == image_sectors_of(header@),
{
    if header.len() < HEADER_SIZE {
        return None;
    }
    if header[0] != 0x43 || header[1] != 0x48 || header[2] != 0x52 || header[3] != 0x4f
        || header[4] != 0x4e || header[5] != 0x4f || header[6] != 0x53 || header[7] != 0x46
        || header[8] != 0x53 {
        proof {
            assert(header@.subrange(0, 9) != magic()) by {
                if header@.subrange(0, 9) == magic() {
                    assert(forall|k: int| 0 <= k < 9 ==> header@.subrange(0, 9)[k] == magic()[k]);
                    assert(header@.subrange(0, 9)[0] == magic()[0]);
                    assert(header@.subrange(0, 9)[1] == magic()[1]);
                    assert(header@.subrange(0, 9)[2] == magic()[2]);
                    assert(header@.subrange(0, 9)[3] == magic()[3]);
                    assert(header@.subrange(0, 9)[4] == magic()[4]);
                    assert(header@.subrange(0, 9)[5] == magic()[5]);
                    assert(header@.subrange(0, 9)[6] == magic()[6]);
                    assert(header@.subrange(0, 9)[7] == magic()[7]);
                    assert(header@.subrange(0, 9)[8] == magic()[8]);
                }
            }
        }
        return None;
    }
    proof {
        assert(header@.subrange(0, 9) =~= magic());
    }
    let total_size = read_u32_le(header, 9) as usize;
    if total_size == 0 || total_size > MAX_IMAGE_SIZE {
        return None;
    }
    Some(#[verifier::truncate] (((total_size + 511) / 512) as u8))
}

/// What [`image_sectors`] gives for a header.
pub open spec fn image_sectors_of(header: Seq<u8>) -> Option<u8> {
    if header.len() < HEADER_SIZE || header.subrange(0, 9) != magic() {
        None
    } else if stored_u32(header, 9) == 0 || stored_u32(header, 9) > MAX_IMAGE_SIZE {
        None
    } else {
        Some(((stored_u32(header, 9) + 511) / 512) as u8)
    }
}

/// Replaces the tree by the one that `full_data`, an image read from
/// disk, holds behind its header. Fails, changing nothing, where no tree
/// can be read there.
pub fn load_from_disk(root: &mut Node, full_data: &[u8]) -> (loaded: bool)
    ensures
        loaded == parsed_node(full_data@, HEADER_SIZE as int).0 is Some,
        final(root)@ == match parsed_node(full_data@, HEADER_SIZE as int).0 {
            Some(tree) => tree,
            None => old(root)@,
        },
{
    let mut offset: usize = HEADER_SIZE;
    match deserialize_node(full_data, &mut offset) {
        Some(new_root) => {
            *root = new_root;
            true
        },
        None => false,
    }
}

impl NodeView {
    /// Every length in the tree can be written in four bytes: the bytes
    /// of each name, the bytes of each file and the entries of each
    /// directory.
    pub open spec fn storable(self) -> bool
        decreases self, 0nat,
    {
        match self {
            NodeView::File { name, data } => vstd::utf8::encode_utf8(name).len() <= u32::MAX
                && data.len() <= u32::MAX,
            NodeView::Directory { name, children } => vstd::utf8::encode_utf8(name).len()
                <= u32::MAX && children.len() <= u32::MAX && all_storable(
                children,
                children.len(),
            ),
        }
    }
}

/// The first `n` entries are storable.
pub open spec fn all_storable(children: Seq<NodeView>, n: nat) -> bool
    decreases children, n,
{
    n == 0 || n > children.len() || (all_storable(children, (n - 1) as nat) && children[n
        - 1].storable())
}

/// Each of the first `n` entries is storable where all of them are.
proof fn lemma_each_storable(children: Seq<NodeView>, n: nat, k: int)
    requires
        all_storable(children, n),
        0 <= k < n <= children.len(),
    ensures
        children[k].storable(),
    decreases n,
{
    if k < n - 1 {
        lemma_each_storable(children, (n - 1) as nat, k);
    }
}

/// The first entries on disk are the start of more entries on disk.
proof fn lemma_entries_start(children: Seq<NodeView>, k: nat, n: nat)
    requires
        k <= n <= children.len(),
    ensures
        serialized_entries(children, k).len() <= serialized_entries(children, n).len(),
        serialized_entries(children, n).subrange(0, serialized_entries(children, k).len() as int)
            == serialized_entries(children, k),
    decreases n,
{
    if k < n {
        lemma_entries_start(children, k, (n - 1) as nat);
        let shorter = serialized_entries(children, (n - 1) as nat);
        let first = serialized_entries(children, k);
        assert(serialized_entries(children, n) == shorter + serialized(children[n - 1]));
        assert(serialized_entries(children, n).subrange(0, first.len() as int) =~= shorter.subrange(
            0,
            first.len() as int,
        ));
    } else {
        assert(serialized_entries(children, n).subrange(
            0,
            serialized_entries(children, k).len() as int,
        ) =~= serialized_entries(children, k));
    }
}

/// Four bytes written least significant first are read back as the
/// number they were written for.
proof fn lemma_stored_u32(data: Seq<u8>, offset: int, x: u32)
    requires
        0 <= offset,
        offset + 4 <= data.len(),
        data.subrange(offset, offset + 4) == le_bytes32(x),
    ensures
        stored_u32(data, offset) == x,
{
    let part = data.subrange(offset, offset + 4);
    assert(part[0] == data[offset]);
    assert(part[1] == data[offset + 1]);
    assert(part[2] == data[offset + 2]);
    assert(part[3] == data[offset + 3]);
    assert(((x & 0xff) as u8 as u32) | ((((x >> 8) & 0xff) as u8 as u32) << 8) | ((((x >> 16)
        & 0xff) as u8 as u32) << 16) | ((((x >> 24) & 0xff) as u8 as u32) << 24) == x)
        by (bit_vector);
}

/// A string that was written is read back: where the bytes from
/// `offset` on are those of the string on disk, reading there gives the
/// string and stops behind it.
pub proof fn lemma_string_read_back(data: Seq<u8>, offset: int, s: Seq<char>)
    requires
        0 <= offset,
        vstd::utf8::encode_utf8(s).len() <= u32::MAX,
        offset + serialized_string(s).len() <= data.len(),
        data.subrange(offset, offset + serialized_string(s).len()) == serialized_string(s),
    ensures
        parsed_string(data, offset) == (Some(s), offset + serialized_string(s).len()),
{
    broadcast use vstd::utf8::encode_utf8_valid_utf8;

    let bytes = vstd::utf8::encode_utf8(s);
    let whole = serialized_string(s);
    let part = data.subrange(offset, offset + whole.len());
    assert(whole.len() == 4 + bytes.len());
    assert(data.subrange(offset, offset + 4) =~= part.subrange(0, 4));
    assert(whole.subrange(0, 4) =~= le_bytes32(bytes.len() as u32));
    lemma_stored_u32(data, offset, bytes.len() as u32);
    let n = bytes.len() as int;
    assert(data.subrange(offset + 4, offset + 4 + n) =~= part.subrange(4, 4 + n));
    assert(whole.subrange(4, 4 + n) =~= bytes);
    vstd::utf8::encode_utf8_decode_utf8(s);
}

/// A tree that was written is read back: where the bytes from `offset`
/// on are those of a storable tree on disk, reading there gives the tree
/// and stops behind it.
pub proof fn lemma_node_read_back(data: Seq<u8>, offset: int, node: NodeView)
    requires
        node.storable(),
        0 <= offset,
        offset + serialized(node).len() <= data.len(),
        data.subrange(offset, offset + serialized(node).len()) == serialized(node),
    ensures
        parsed_node(data, offset) == (Some(node), offset + serialized(node).len()),
    decreases node, 0nat,
{
    let whole = serialized(node);
    let part = data.subrange(offset, offset + whole.len());
    match node {
        NodeView::File { name, data: content } => {
            let s = serialized_string(name);
            let n = s.len() as int;
            let m = content.len() as int;
            let after_name = offset + 1 + n;
            assert(whole == seq![0u8] + s + le_bytes32(content.len() as u32) + content);
            assert(whole.len() == 1 + n + 4 + m);
            assert(data[offset] == part[0]);
            assert(data.subrange(offset + 1, after_name) =~= part.subrange(1, 1 + n));
            assert(whole.subrange(1, 1 + n) =~= s);
            lemma_string_read_back(data, offset + 1, name);
            assert(data.subrange(after_name, after_name + 4) =~= part.subrange(1 + n, 5 + n));
            assert(whole.subrange(1 + n, 5 + n) =~= le_bytes32(content.len() as u32));
            lemma_stored_u32(data, after_name, content.len() as u32);
            assert(data.subrange(after_name + 4, after_name + 4 + m) =~= part.subrange(
                5 + n,
                5 + n + m,
            ));
            assert(whole.subrange(5 + n, 5 + n + m) =~= content);
        },
        NodeView::Directory { name, children } => {
            let s = serialized_string(name);
            let entries = serialized_entries(children, children.len());
            let n = s.len() as int;
            let m = entries.len() as int;
            let after_name = offset + 1 + n;
            let start = after_name + 4;
            assert(whole == seq![1u8] + s + le_bytes32(children.len() as u32) + entries);
            assert(whole.len() == 1 + n + 4 + m);
            assert(data[offset] == part[0]);
            assert(data.subrange(offset + 1, after_name) =~= part.subrange(1, 1 + n));
            assert(whole.subrange(1, 1 + n) =~= s);
            lemma_string_read_back(data, offset + 1, name);
            assert(data.subrange(after_name, after_name + 4) =~= part.subrange(1 + n, 5 + n));
            assert(whole.subrange(1 + n, 5 + n) =~= le_bytes32(children.len() as u32));
            lemma_stored_u32(data, after_name, children.len() as u32);
            assert(data.subrange(start, start + m) =~= part.subrange(5 + n, 5 + n + m));
            assert(whole.subrange(5 + n, 5 + n + m) =~= entries);
            assert(serialized_entries(children, 0).len() == 0);
            assert(children.take(0) =~= Seq::<NodeView>::empty());
            lemma_entries_read_back(data, start, children, 0);
        },
    }
}

/// Entries that were written are read back: with the first `k` entries
/// read, reading the rest gives all entries and stops behind the last.
pub proof fn lemma_entries_read_back(data: Seq<u8>, start: int, children: Seq<NodeView>, k: nat)
    requires
        all_storable(children, children.len()),
        0 <= start,
        k <= children.len(),
        start + serialized_entries(children, children.len()).len() <= data.len(),
        data.subrange(start, start + serialized_entries(children, children.len()).len())
            == serialized_entries(children, children.len()),
    ensures
        parsed_entries(
            data,
            start + serialized_entries(children, k).len(),
            (children.len() - k) as nat,
            children.take(k as int),
        ) == (Some(children), start + serialized_entries(children, children.len()).len()),
    decreases children, children.len() - k,
{
    let all = serialized_entries(children, children.len());
    let read = serialized_entries(children, k);
    if k == children.len() {
        assert(children.take(k as int) =~= children);
    } else {
        let child = children[k as int];
        let one = serialized(child);
        let more = serialized_entries(children, k + 1);
        lemma_each_storable(children, children.len(), k as int);
        lemma_entries_start(children, k + 1, children.len());
        assert(more == read + one);
        assert(one.len() >= 1) by {
            match child {
                NodeView::File { name, data } => {},
                NodeView::Directory { name, children } => {},
            }
        }
        let n = read.len() as int;
        let m = one.len() as int;
        let at = start + n;
        assert(data.subrange(at, at + m) =~= one) by {
            let part = data.subrange(start, start + all.len());
            assert(data.subrange(at, at + m) =~= part.subrange(n, n + m));
            assert(all.subrange(0, more.len() as int).subrange(n, n + m) =~= all.subrange(
                n,
                n + m,
            ));
            assert(more.subrange(n, n + m) =~= one);
        }
        lemma_node_read_back(data, at, child);
        assert(children.take(k as int).push(child) =~= children.take(k + 1 as int));
        lemma_entries_read_back(data, start, children, k + 1);
    }
}

/// What was saved is loaded: reading the image of a storable tree behind
/// its header gives the tree.
pub proof fn lemma_image_read_back(root: NodeView)
    requires
        root.storable(),
    ensures
        parsed_node(disk_image(root), HEADER_SIZE as int).0 == Some(root),
{
    let image = disk_image(root);
    let tree = serialized(root);
    assert(magic().len() == 9);
    assert(image_body(root).len() == HEADER_SIZE + tree.len());
    assert(image.subrange(HEADER_SIZE as int, HEADER_SIZE + tree.len()) =~= tree);
    lemma_node_read_back(image, HEADER_SIZE as int, root);
}

} // verus!
