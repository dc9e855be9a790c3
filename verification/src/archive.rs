//! The tree of an RPF archive: looking nodes up, adding nodes, and the rows in which it is shown.

use crate::order::{keys_of, numbers, sorted_order, stable_order, Key, SortKey};
use crate::text::{
    self, cut_last, lower, occurs, occurs_at, opt_text, text_before, the_last_cut_comes_last,
};
use crate::textures::{kind_of_extension, AssetKind};
use vstd::hash_set::StringHashSet;
use vstd::prelude::*;

verus! {

/// What an entry of an archive holds.
#[derive(Clone, Copy, PartialEq, Eq, Structural)]
pub enum ArchiveContentKind {
    Folder,
    Package,
    TextureAsset,
    XmlText,
    ConvertedXml,
    File,
}

/// Where the text of an entry comes from.
#[derive(Clone, Copy, PartialEq, Eq, Structural)]
pub enum ArchiveTextSourceKind {
    RawText,
    YmtXml,
}

/// The kinds of nodes of an archive.
#[derive(Clone, Copy, PartialEq, Eq, Structural)]
pub enum RpfTreeNodeKind {
    Folder,
    Package,
    File,
}

/// A node of an archive with all that lies below it.
pub struct RpfTreeNode {
    pub name: String,
    pub path: String,
    pub display_path: String,
    pub kind: RpfTreeNodeKind,
    pub content_kind: ArchiveContentKind,
    pub children: Vec<RpfTreeNode>,
}

/// What a node holds.
#[verifier::ext_equal]
pub struct Tree {
    pub name: Seq<char>,
    pub path: Seq<char>,
    pub display_path: Seq<char>,
    pub kind: RpfTreeNodeKind,
    pub content_kind: ArchiveContentKind,
    pub children: Seq<Tree>,
}

impl View for RpfTreeNode {
    type V = Tree;

    open spec fn view(&self) -> Tree
        decreases self,
    {
        Tree {
            name: self.name@,
            path: self.path@,
            display_path: self.display_path@,
            kind: self.kind,
            content_kind: self.content_kind,
            children: Seq::new(
                self.children@.len(),
                |i: int|
                    if 0 <= i < self.children@.len() {
                        self.children@[i]@
                    } else {
                        arbitrary()
                    },
            ),
        }
    }
}

/// What the nodes of a list hold.
pub open spec fn trees(nodes: Seq<RpfTreeNode>) -> Seq<Tree> {
    Seq::new(nodes.len(), |i: int| nodes[i]@)
}

pub(crate) proof fn lemma_view(node: RpfTreeNode)
    ensures
        node@ == (Tree {
            name: node.name@,
            path: node.path@,
            display_path: node.display_path@,
            kind: node.kind,
            content_kind: node.content_kind,
            children: trees(node.children@),
        }),
{
    reveal_with_fuel(<RpfTreeNode as View>::view, 2);
    assert(node@.children =~= trees(node.children@));
}

impl Tree {
    /// The first node with the given path, from the root down and from the first child on.
    pub open spec fn located(self, path: Seq<char>) -> Option<Tree>
        decreases self,
    {
        if self.path == path {
            Some(self)
        } else {
            located_in(self.children, path)
        }
    }

    /// The tree with a node behind the children of the node with path `parent`.
    pub open spec fn grown(self, parent: Seq<char>, node: Tree) -> Option<Tree>
        decreases self,
    {
        if self.path == parent {
            Some(Tree { children: self.children.push(node), ..self })
        } else {
            match grown_in(self.children, parent, node) {
                Some(children) => Some(Tree { children, ..self }),
                None => None,
            }
        }
    }

    /// The path of the node above the first node with the given path.
    pub open spec fn parent_of(self, path: Seq<char>) -> Option<Seq<char>>
        decreases self,
    {
        parent_in(self.children, self.path, path)
    }

    /// The paths of all nodes.
    pub open spec fn paths(self) -> Set<Seq<char>>
        decreases self,
    {
        paths_in(self.children).insert(self.path)
    }

    /// Whether no path occurs twice.
    pub open spec fn distinct(self) -> bool
        decreases self,
    {
        !paths_in(self.children).contains(self.path) && distinct_in(self.children)
    }

    /// Whether the node can be opened into further nodes.
    pub open spec fn is_branch(self) -> bool {
        self.kind is Folder || self.kind is Package
    }
}

pub open spec fn located_in(children: Seq<Tree>, path: Seq<char>) -> Option<Tree>
    decreases children,
{
    if children.len() == 0 {
        None
    } else {
        match children[0].located(path) {
            Some(found) => Some(found),
            None => located_in(children.subrange(1, children.len() as int), path),
        }
    }
}

pub open spec fn grown_in(children: Seq<Tree>, parent: Seq<char>, node: Tree) -> Option<Seq<Tree>>
    decreases children,
{
    if children.len() == 0 {
        None
    } else {
        let rest = children.subrange(1, children.len() as int);
        match children[0].grown(parent, node) {
            Some(first) => Some(seq![first] + rest),
            None => match grown_in(rest, parent, node) {
                Some(changed) => Some(seq![children[0]] + changed),
                None => None,
            },
        }
    }
}

pub open spec fn parent_in(children: Seq<Tree>, own: Seq<char>, path: Seq<char>) -> Option<
    Seq<char>,
>
    decreases children,
{
    if children.len() == 0 {
        None
    } else if children[0].path == path {
        Some(own)
    } else {
        match children[0].parent_of(path) {
            Some(found) => Some(found),
            None => parent_in(children.subrange(1, children.len() as int), own, path),
        }
    }
}

pub open spec fn paths_in(children: Seq<Tree>) -> Set<Seq<char>>
    decreases children,
{
    if children.len() == 0 {
        Set::empty()
    } else {
        children[0].paths().union(paths_in(children.subrange(1, children.len() as int)))
    }
}

pub open spec fn distinct_in(children: Seq<Tree>) -> bool
    decreases children,
{
    if children.len() == 0 {
        true
    } else {
        let rest = children.subrange(1, children.len() as int);
        children[0].distinct() && children[0].paths().disjoint(paths_in(rest)) && distinct_in(rest)
    }
}

impl RpfTreeNode {
    /// The node with the given path.
    pub fn find(&self, path: &str) -> (r: Option<&RpfTreeNode>)
        ensures
            match r {
                Some(node) => self@.located(path@) == Some(node@),
                None => self@.located(path@) is None,
            },
        decreases self,
    {
        proof {
            lemma_view(*self);
        }
        if text::same_text(self.path.as_str(), path) {
            return Some(self);
        }
        let ghost kids = trees(self.children@);
        assert(kids.subrange(0, kids.len() as int) =~= kids);
        let mut i: usize = 0;
        while i < self.children.len()
            invariant
                kids == trees(self.children@),
                self@.located(path@) == located_in(kids, path@),
                0 <= i <= self.children@.len(),
                located_in(kids, path@) == located_in(
                    kids.subrange(i as int, kids.len() as int),
                    path@,
                ),
            decreases self.children@.len() - i,
        {
            proof {
                let now = kids.subrange(i as int, kids.len() as int);
                assert(now[0] == self.children@[i as int]@);
                assert(now.subrange(1, now.len() as int) =~= kids.subrange(
                    i + 1,
                    kids.len() as int,
                ));
                assert(decreases_to!(self => self.children));
            }
            if let Some(found) = self.children[i].find(path) {
                return Some(found);
            }
            i += 1;
        }
        None
    }

    /// Puts a node behind the children of the node with path `parent`; tells whether there is
    /// such a node.
    pub fn add_child(&mut self, parent: &str, node: RpfTreeNode) -> (r: Option<RpfTreeNode>)
        ensures
            match old(self)@.grown(parent@, node@) {
                Some(tree) => r is None && final(self)@ == tree,
                None => r == Some(node) && final(self)@ == old(self)@,
            },
        decreases *old(self),
    {
        proof {
            lemma_view(*self);
        }
        if text::same_text(self.path.as_str(), parent) {
            let ghost before = trees(self.children@);
            self.children.push(node);
            proof {
                lemma_view(*self);
                assert(trees(self.children@) =~= before.push(node@));
            }
            None
        } else {
            let r = add_in(&mut self.children, parent, node);
            proof {
                lemma_view(*self);
            }
            r
        }
    }

    /// The path of the node above the node with the given path.
    pub fn parent_path(&self, path: &str) -> (r: Option<String>)
        ensures
            opt_text(r) == self@.parent_of(path@),
        decreases self,
    {
        proof {
            lemma_view(*self);
        }
        let ghost kids = trees(self.children@);
        assert(kids.subrange(0, kids.len() as int) =~= kids);
        let mut i: usize = 0;
        while i < self.children.len()
            invariant
                kids == trees(self.children@),
                self@.parent_of(path@) == parent_in(kids, self.path@, path@),
                0 <= i <= self.children@.len(),
                parent_in(kids, self.path@, path@) == parent_in(
                    kids.subrange(i as int, kids.len() as int),
                    self.path@,
                    path@,
                ),
            decreases self.children@.len() - i,
        {
            proof {
                let now = kids.subrange(i as int, kids.len() as int);
                assert(now[0] == self.children@[i as int]@);
                assert(now.subrange(1, now.len() as int) =~= kids.subrange(
                    i + 1,
                    kids.len() as int,
                ));
                lemma_view(self.children@[i as int]);
                assert(decreases_to!(self => self.children));
            }
            if text::same_text(self.children[i].path.as_str(), path) {
                return Some(self.path.clone());
            }
            if let Some(found) = self.children[i].parent_path(path) {
                return Some(found);
            }
            i += 1;
        }
        None
    }
}

fn add_in(children: &mut Vec<RpfTreeNode>, parent: &str, node: RpfTreeNode) -> (r: Option<
    RpfTreeNode,
>)
    ensures
        match grown_in(trees(old(children)@), parent@, node@) {
            Some(changed) => r is None && trees(final(children)@) == changed,
            None => r == Some(node) && trees(final(children)@) == trees(old(children)@),
        },
    decreases *old(children),
{
    let ghost before = trees(children@);
    let mut pending: Option<RpfTreeNode> = Some(node);
    let mut i: usize = 0;
    assert(before.subrange(0, before.len() as int) =~= before);
    assert(before.take(0) =~= Seq::<Tree>::empty());
    while i < children.len()
        invariant
            before == trees(old(children)@),
            before == trees(children@),
            children@.len() == old(children)@.len(),
            0 <= i <= children@.len(),
            pending == Some(node),
            forall|j: int| i <= j < children@.len() ==> children@[j] == old(children)@[j],
            grown_in(before, parent@, node@) == match grown_in(
                before.subrange(i as int, before.len() as int),
                parent@,
                node@,
            ) {
                Some(changed) => Some(before.take(i as int) + changed),
                None => None,
            },
        decreases children@.len() - i,
    {
        proof {
            let now = before.subrange(i as int, before.len() as int);
            assert(now[0] == children@[i as int]@);
            assert(now.subrange(1, now.len() as int) =~= before.subrange(
                i + 1,
                before.len() as int,
            ));
            assert(decreases_to!(*old(children) => old(children)@));
            assert(decreases_to!(old(children)@ => old(children)@[i as int]));
        }
        let mut given: Option<RpfTreeNode> = None;
        std::mem::swap(&mut given, &mut pending);
        if let Some(child) = given {
            let ghost first = children@[i as int]@;
            let back = children[i].add_child(parent, child);
            match back {
                None => {
                    proof {
                        let rest = before.subrange(i + 1, before.len() as int);
                        let changed = first.grown(parent@, node@)->0;
                        assert(trees(children@) =~= before.take(i as int) + (seq![changed] + rest));
                    }
                    return None;
                },
                Some(child) => {
                    pending = Some(child);
                    proof {
                        assert(trees(children@) =~= before);
                        match grown_in(
                            before.subrange(i + 1, before.len() as int),
                            parent@,
                            node@,
                        ) {
                            Some(changed) => {
                                assert(before.take(i as int) + (seq![first] + changed)
                                    =~= before.take(i + 1) + changed);
                            },
                            None => {},
                        }
                    }
                },
            }
        }
        i += 1;
    }
    pending
}

proof fn lemma_located(tree: Tree, path: Seq<char>)
    ensures
        tree.located(path) is Some <==> tree.paths().contains(path),
        tree.located(path) matches Some(found) ==> found.path == path,
    decreases tree,
{
    lemma_located_in(tree.children, path);
}

proof fn lemma_located_in(children: Seq<Tree>, path: Seq<char>)
    ensures
        located_in(children, path) is Some <==> paths_in(children).contains(path),
        located_in(children, path) matches Some(found) ==> found.path == path,
    decreases children,
{
    if children.len() > 0 {
        lemma_located(children[0], path);
        lemma_located_in(children.subrange(1, children.len() as int), path);
    }
}

/// A node is found exactly when the tree has its path, and it has the path that was asked for.
pub proof fn lookup_finds_every_path(tree: Tree, path: Seq<char>)
    ensures
        tree.located(path) is Some <==> tree.paths().contains(path),
        tree.located(path) matches Some(found) ==> found.path == path,
{
    lemma_located(tree, path);
}

proof fn lemma_cons(first: Tree, rest: Seq<Tree>)
    ensures
        (seq![first] + rest).subrange(1, (seq![first] + rest).len() as int) == rest,
        (seq![first] + rest)[0] == first,
        paths_in(seq![first] + rest) == first.paths().union(paths_in(rest)),
        distinct_in(seq![first] + rest) == (first.distinct() && first.paths().disjoint(
            paths_in(rest),
        ) && distinct_in(rest)),
{
    assert((seq![first] + rest).subrange(1, (seq![first] + rest).len() as int) =~= rest);
}

proof fn lemma_push(children: Seq<Tree>, last: Tree)
    ensures
        paths_in(children.push(last)) == paths_in(children).union(last.paths()),
        distinct_in(children) && last.distinct() && last.paths().disjoint(paths_in(children))
            ==> distinct_in(children.push(last)),
        forall|p: Seq<char>| #[trigger]
            located_in(children.push(last), p) == match located_in(children, p) {
                Some(found) => Some(found),
                None => last.located(p),
            },
    decreases children.len(),
{
    let none = Seq::<Tree>::empty();
    if children.len() == 0 {
        assert(children.push(last) =~= seq![last] + none);
        lemma_cons(last, none);
        assert(paths_in(children.push(last)) =~= paths_in(children).union(last.paths()));
        assert forall|p: Seq<char>| #[trigger]
            located_in(children.push(last), p) == match located_in(children, p) {
                Some(found) => Some(found),
                None => last.located(p),
            } by {
            assert(located_in(none, p) is None);
        }
    } else {
        let rest = children.subrange(1, children.len() as int);
        lemma_push(rest, last);
        assert(children.push(last) =~= seq![children[0]] + rest.push(last));
        assert(children =~= seq![children[0]] + rest);
        lemma_cons(children[0], rest.push(last));
        lemma_cons(children[0], rest);
        assert(paths_in(children.push(last)) =~= paths_in(children).union(last.paths()));
        if distinct_in(children) && last.distinct() && last.paths().disjoint(paths_in(children)) {
            assert(last.paths().disjoint(paths_in(rest)));
            assert(children[0].paths().disjoint(paths_in(rest.push(last))));
        }
        assert forall|p: Seq<char>| #[trigger]
            located_in(children.push(last), p) == match located_in(children, p) {
                Some(found) => Some(found),
                None => last.located(p),
            } by {
            assert(located_in(rest.push(last), p) == match located_in(rest, p) {
                Some(found) => Some(found),
                None => last.located(p),
            });
        }
    }
}

proof fn lemma_grown(tree: Tree, parent: Seq<char>, node: Tree)
    ensures
        tree.grown(parent, node) is Some <==> tree.paths().contains(parent),
        tree.grown(parent, node) matches Some(after) ==> {
            &&& after.path == tree.path
            &&& after.paths() == tree.paths().union(node.paths())
            &&& tree.distinct() && node.distinct() && node.paths().disjoint(tree.paths())
                ==> after.distinct()
            &&& node.children.len() == 0 && !tree.paths().contains(node.path) ==> after.located(
                node.path,
            ) == Some(node)
        },
    decreases tree,
{
    if tree.path == parent {
        lemma_push(tree.children, node);
        let after = tree.grown(parent, node)->0;
        assert(after.paths() =~= tree.paths().union(node.paths()));
        lemma_located_in(tree.children, node.path);
        assert(located_in(tree.children.push(node), node.path) == match located_in(
            tree.children,
            node.path,
        ) {
            Some(found) => Some(found),
            None => node.located(node.path),
        });
        if node.paths().disjoint(tree.paths()) {
            assert(tree.paths().contains(tree.path));
            assert(node.paths().disjoint(paths_in(tree.children)));
        }
    } else {
        lemma_grown_in(tree.children, parent, node);
        if let Some(after) = tree.grown(parent, node) {
            assert(after.paths() =~= tree.paths().union(node.paths()));
            if node.paths().disjoint(tree.paths()) {
                assert(tree.paths().contains(tree.path));
                assert(node.paths().disjoint(paths_in(tree.children)));
            }
        }
    }
}

proof fn lemma_grown_in(children: Seq<Tree>, parent: Seq<char>, node: Tree)
    ensures
        grown_in(children, parent, node) is Some <==> paths_in(children).contains(parent),
        grown_in(children, parent, node) matches Some(after) ==> {
            &&& paths_in(after) == paths_in(children).union(node.paths())
            &&& distinct_in(children) && node.distinct() && node.paths().disjoint(
                paths_in(children),
            ) ==> distinct_in(after)
            &&& node.children.len() == 0 && !paths_in(children).contains(node.path) ==> located_in(
                after,
                node.path,
            ) == Some(node)
        },
    decreases children,
{
    if children.len() > 0 {
        let rest = children.subrange(1, children.len() as int);
        assert(children =~= seq![children[0]] + rest);
        lemma_cons(children[0], rest);
        lemma_grown(children[0], parent, node);
        lemma_grown_in(rest, parent, node);
        match children[0].grown(parent, node) {
            Some(first) => {
                lemma_cons(first, rest);
                assert(paths_in(seq![first] + rest) =~= paths_in(children).union(node.paths()));
                if distinct_in(children) && node.distinct() && node.paths().disjoint(
                    paths_in(children),
                ) {
                    assert(first.paths().disjoint(paths_in(rest)));
                }
            },
            None => {
                if let Some(after) = grown_in(rest, parent, node) {
                    lemma_cons(children[0], after);
                    assert(paths_in(seq![children[0]] + after) =~= paths_in(children).union(
                        node.paths(),
                    ));
                    if distinct_in(children) && node.distinct() && node.paths().disjoint(
                        paths_in(children),
                    ) {
                        assert(children[0].paths().disjoint(paths_in(after)));
                    }
                    lemma_located(children[0], node.path);
                }
            },
        }
    }
}

/// A node can be added below each node of the tree. The tree then has its path besides those it
/// had; a new node with a new path is found, and no path occurs twice where none did.
pub proof fn added_nodes_are_found(tree: Tree, parent: Seq<char>, node: Tree)
    requires
        node.children.len() == 0,
    ensures
        tree.grown(parent, node) is Some <==> tree.located(parent) is Some,
        tree.grown(parent, node) matches Some(after) ==> {
            &&& after.paths() == tree.paths().insert(node.path)
            &&& tree.located(node.path) is None ==> after.located(node.path) == Some(node)
            &&& tree.distinct() && tree.located(node.path) is None ==> after.distinct()
        },
{
    lemma_grown(tree, parent, node);
    lemma_located(tree, parent);
    lemma_located(tree, node.path);
    assert(paths_in(node.children) =~= Set::<Seq<char>>::empty());
    assert(node.paths() =~= Set::<Seq<char>>::empty().insert(node.path));
    if let Some(after) = tree.grown(parent, node) {
        assert(after.paths() =~= tree.paths().insert(node.path));
    }
}

proof fn lemma_parent(tree: Tree, path: Seq<char>)
    ensures
        tree.parent_of(path) is Some <==> paths_in(tree.children).contains(path),
        tree.parent_of(path) matches Some(parent) ==> tree.paths().contains(parent),
    decreases tree,
{
    lemma_parent_in(tree.children, tree.path, path);
}

proof fn lemma_parent_in(children: Seq<Tree>, own: Seq<char>, path: Seq<char>)
    ensures
        parent_in(children, own, path) is Some <==> paths_in(children).contains(path),
        parent_in(children, own, path) matches Some(parent) ==> parent == own || paths_in(
            children,
        ).contains(parent),
    decreases children,
{
    if children.len() > 0 {
        lemma_parent(children[0], path);
        assert(children[0].paths() == paths_in(children[0].children).insert(children[0].path));
        lemma_parent_in(children.subrange(1, children.len() as int), own, path);
    }
}

/// Every node of the tree but the root has a node above it, and that node is in the tree.
pub proof fn every_node_has_a_parent(tree: Tree, path: Seq<char>)
    requires
        path != tree.path,
    ensures
        tree.located(path) is Some <==> tree.parent_of(path) is Some,
        tree.parent_of(path) matches Some(parent) ==> tree.located(parent) is Some,
{
    lemma_parent(tree, path);
    lemma_located(tree, path);
    if let Some(parent) = tree.parent_of(path) {
        lemma_located(tree, parent);
    }
}

/// A row in which a node is shown.
pub struct ArchiveRow {
    pub name: String,
    pub path: String,
    pub icon: &'static str,
    pub branch: bool,
    pub expanded: bool,
    pub selected: bool,
    pub depth: u32,
}

/// What a row holds.
pub struct RowParts {
    pub name: Seq<char>,
    pub path: Seq<char>,
    pub icon: Seq<char>,
    pub branch: bool,
    pub expanded: bool,
    pub selected: bool,
    pub depth: u32,
}

impl View for ArchiveRow {
    type V = RowParts;

    open spec fn view(&self) -> RowParts {
        RowParts {
            name: self.name@,
            path: self.path@,
            icon: self.icon@,
            branch: self.branch,
            expanded: self.expanded,
            selected: self.selected,
            depth: self.depth,
        }
    }
}

/// What the rows of a list hold.
pub open spec fn row_parts(rows: Seq<ArchiveRow>) -> Seq<RowParts> {
    Seq::new(rows.len(), |i: int| rows[i]@)
}

impl ArchiveContentKind {
    pub open spec fn icon(self) -> Seq<char> {
        match self {
            ArchiveContentKind::Folder => "folder-symbolic"@,
            ArchiveContentKind::Package => "package-x-generic-symbolic"@,
            ArchiveContentKind::TextureAsset => "image-x-generic-symbolic"@,
            _ => "text-x-generic-symbolic"@,
        }
    }
}

/// The icon of a node.
pub fn archive_icon_name_for_node(node: &RpfTreeNode) -> (r: &'static str)
    ensures
        r@ == node.content_kind.icon(),
{
    match node.content_kind {
        ArchiveContentKind::Folder => "folder-symbolic",
        ArchiveContentKind::Package => "package-x-generic-symbolic",
        ArchiveContentKind::TextureAsset => "image-x-generic-symbolic",
        ArchiveContentKind::XmlText => "text-x-generic-symbolic",
        ArchiveContentKind::ConvertedXml => "text-x-generic-symbolic",
        ArchiveContentKind::File => "text-x-generic-symbolic",
    }
}

/// What the view of an archive depends on: the folders that are expanded, the selected file, the
/// current folder and the text that names are searched for.
pub struct ArchiveViewState<'a> {
    pub expanded: &'a StringHashSet,
    pub selected_file: &'a Option<String>,
    pub current: &'a Option<String>,
    pub query: &'a Option<String>,
}

/// What a view depends on.
pub struct ShownBy {
    pub expanded: Set<Seq<char>>,
    pub selected_file: Option<Seq<char>>,
    pub current: Option<Seq<char>>,
    pub query: Option<Seq<char>>,
}

impl<'a> View for ArchiveViewState<'a> {
    type V = ShownBy;

    open spec fn view(&self) -> ShownBy {
        ShownBy {
            expanded: self.expanded@,
            selected_file: opt_text(*self.selected_file),
            current: opt_text(*self.current),
            query: opt_text(*self.query),
        }
    }
}

/// The rank of a kind: folders come first, then packages, then files.
pub open spec fn rank_of(kind: RpfTreeNodeKind) -> int {
    match kind {
        RpfTreeNodeKind::Folder => 0,
        RpfTreeNodeKind::Package => 1,
        RpfTreeNodeKind::File => 2,
    }
}

/// The keys by which nodes are ordered: by kind, then by name regardless of case.
pub open spec fn tree_keys(nodes: Seq<Tree>) -> Seq<Key> {
    Seq::new(nodes.len(), |i: int| Key { rank: rank_of(nodes[i].kind), text: lower(nodes[i].name) })
}

/// Whether a node is shown under a search.
pub open spec fn name_matches(name: Seq<char>, query: Option<Seq<char>>) -> bool {
    match query {
        Some(wanted) => occurs(lower(name), wanted),
        None => true,
    }
}

/// The row of a node.
pub open spec fn row_of(node: Tree, by: ShownBy, depth: u32) -> RowParts {
    RowParts {
        name: node.name,
        path: node.path,
        icon: node.content_kind.icon(),
        branch: node.is_branch(),
        expanded: node.is_branch() && by.expanded.contains(node.path),
        selected: by.selected_file == Some(node.path) || (by.selected_file is None && by.current
            == Some(node.path)),
        depth,
    }
}

/// The depth below a depth.
pub open spec fn deeper(depth: u32) -> u32 {
    if depth < u32::MAX {
        (depth + 1) as u32
    } else {
        depth
    }
}

/// The rows below a node: its children in order, as far as their names match, and below each
/// expanded one its own rows.
pub open spec fn rows_below(node: Tree, by: ShownBy, depth: u32) -> Seq<RowParts>
    decreases node, node.children.len() + 1,
{
    rows_from(node, 0, by, depth)
}

/// The rows below a node from the child at position `k` of the order on.
pub open spec fn rows_from(node: Tree, k: int, by: ShownBy, depth: u32) -> Seq<RowParts>
    decreases node, node.children.len() - k,
{
    if k < 0 || k >= node.children.len() {
        Seq::empty()
    } else {
        let at = stable_order(tree_keys(node.children))[k];
        let rest = rows_from(node, k + 1, by, depth);
        if at < 0 || at >= node.children.len() {
            rest
        } else {
            let child = node.children[at];
            if !name_matches(child.name, by.query) {
                rest
            } else if child.is_branch() && by.expanded.contains(child.path) {
                seq![row_of(child, by, depth)] + rows_below(child, by, deeper(depth)) + rest
            } else {
                seq![row_of(child, by, depth)] + rest
            }
        }
    }
}

/// Whether a name holds the text that is searched for, regardless of case.
pub fn archive_name_matches_query(name: &str, filter_query: &str) -> (r: bool)
    ensures
        r == name_matches(name@, Some(filter_query@)),
{
    text::contains(text::to_lower(name).as_str(), filter_query)
}

fn child_order(children: &Vec<RpfTreeNode>) -> (r: Vec<usize>)
    ensures
        numbers(r@) == stable_order(tree_keys(trees(children@))),
        r@.len() == children@.len(),
        forall|k: int| 0 <= k < r@.len() ==> #[trigger] r@[k] < children@.len(),
{
    let mut keys: Vec<SortKey> = Vec::new();
    let mut i: usize = 0;
    while i < children.len()
        invariant
            0 <= i <= children@.len(),
            keys@.len() == i,
            forall|j: int| 0 <= j < i ==> (#[trigger] keys@[j])@ == tree_keys(trees(children@))[j],
        decreases children@.len() - i,
    {
        let rank: u64 = match children[i].kind {
            RpfTreeNodeKind::Folder => 0,
            RpfTreeNodeKind::Package => 1,
            RpfTreeNodeKind::File => 2,
        };
        proof {
            lemma_view(children@[i as int]);
        }
        keys.push(
            SortKey {
                rank,
                text: text::chars_of(text::to_lower(children[i].name.as_str()).as_str()),
            },
        );
        i += 1;
    }
    assert(keys_of(keys@) =~= tree_keys(trees(children@)));
    sorted_order(&keys)
}

fn is_text(a: &Option<String>, b: &str) -> (r: bool)
    ensures
        r == (opt_text(*a) == Some(b@)),
{
    text::opt_is(a, b)
}

/// Appends the rows below a node.
pub fn append_archive_rows(
    rows: &mut Vec<ArchiveRow>,
    node: &RpfTreeNode,
    by: &ArchiveViewState<'_>,
    depth: u32,
)
    ensures
        row_parts(final(rows)@) == row_parts(old(rows)@) + rows_below(node@, by@, depth),
    decreases node,
{
    proof {
        lemma_view(*node);
    }
    let order = child_order(&node.children);
    let ghost tree = node@;
    let ghost start = row_parts(rows@);
    let ghost whole = rows_below(tree, by@, depth);
    let mut k: usize = 0;
    assert(start + rows_from(tree, 0, by@, depth) == start + whole);
    while k < order.len()
        invariant
            tree == node@,
            tree.children == trees(node.children@),
            numbers(order@) == stable_order(tree_keys(tree.children)),
            order@.len() == node.children@.len(),
            forall|j: int| 0 <= j < order@.len() ==> #[trigger] order@[j] < node.children@.len(),
            0 <= k <= order@.len(),
            row_parts(rows@) + rows_from(tree, k as int, by@, depth) == start + whole,
        decreases order@.len() - k,
    {
        let at: usize = order[k];
        let child = &node.children[at];
        let ghost before = row_parts(rows@);
        let ghost rest = rows_from(tree, k + 1, by@, depth);
        proof {
            assert(numbers(order@)[k as int] == at as int);
            assert(tree.children[at as int] == child@);
            lemma_view(*child);
            assert(decreases_to!(node => node.children));
        }
        let shown = match by.query {
            Some(wanted) => archive_name_matches_query(child.name.as_str(), wanted.as_str()),
            None => true,
        };
        if shown {
            let branch = match child.kind {
                RpfTreeNodeKind::Folder => true,
                RpfTreeNodeKind::Package => true,
                RpfTreeNodeKind::File => false,
            };
            let expanded = branch && by.expanded.contains(child.path.as_str());
            let selected = is_text(by.selected_file, child.path.as_str()) || (
            by.selected_file.is_none() && is_text(by.current, child.path.as_str()));
            rows.push(
                ArchiveRow {
                    name: child.name.clone(),
                    path: child.path.clone(),
                    icon: archive_icon_name_for_node(child),
                    branch,
                    expanded,
                    selected,
                    depth,
                },
            );
            proof {
                assert(row_parts(rows@) =~= before.push(row_of(child@, by@, depth)));
            }
            if expanded {
                let below: u32 = if depth < u32::MAX {
                    depth + 1
                } else {
                    depth
                };
                append_archive_rows(rows, child, by, below);
                proof {
                    assert(row_parts(rows@) + rest =~= before + (seq![row_of(child@, by@, depth)]
                        + rows_below(child@, by@, deeper(depth)) + rest));
                }
            } else {
                proof {
                    assert(row_parts(rows@) + rest =~= before + (seq![row_of(child@, by@, depth)]
                        + rest));
                }
            }
        }
        k += 1;
    }
    proof {
        assert(rows_from(tree, k as int, by@, depth) =~= Seq::<RowParts>::empty());
        assert(row_parts(rows@) + Seq::<RowParts>::empty() =~= row_parts(rows@));
    }
}

/// Nothing is shown below a node exactly when the names of its children do not match.
pub proof fn no_rows_without_a_match(node: Tree, by: ShownBy, depth: u32)
    ensures
        rows_below(node, by, depth).len() == 0 <==> forall|i: int|
            0 <= i < node.children.len() ==> !name_matches((#[trigger] node.children[i]).name, by.query),
{
    let keys = tree_keys(node.children);
    let n = node.children.len() as int;
    crate::order::the_order_is_stable(keys, n);
    lemma_rows_from(node, 0, by, depth);
    let order = stable_order(keys);
    if rows_below(node, by, depth).len() == 0 {
        assert forall|i: int| 0 <= i < n implies !name_matches(
            (#[trigger] node.children[i]).name,
            by.query,
        ) by {
            assert(order.contains(i));
            let k = choose|k: int| 0 <= k < order.len() && order[k] == i;
            assert(!name_matches(node.children[order[k]].name, by.query));
        }
    } else {
        let k = choose|k: int|
            0 <= k < n && name_matches(node.children[#[trigger] order[k]].name, by.query);
        assert(name_matches(node.children[order[k]].name, by.query));
    }
}

proof fn lemma_rows_from(node: Tree, k: int, by: ShownBy, depth: u32)
    requires
        0 <= k <= node.children.len(),
        crate::order::is_stable_order(
            stable_order(tree_keys(node.children)),
            tree_keys(node.children),
            node.children.len() as int,
        ),
    ensures
        rows_from(node, k, by, depth).len() == 0 <==> forall|j: int|
            k <= j < node.children.len() ==> !name_matches(
                node.children[#[trigger] stable_order(tree_keys(node.children))[j]].name,
                by.query,
            ),
    decreases node.children.len() - k,
{
    if k < node.children.len() {
        lemma_rows_from(node, k + 1, by, depth);
        let order = stable_order(tree_keys(node.children));
        assert(0 <= order[k] < node.children.len());
    }
}

/// The path of the folder that holds an entry.
pub open spec fn folder_of(path: Seq<char>) -> Option<Seq<char>> {
    match cut_last(path, '\\') {
        Some((parent, _)) => Some(parent),
        None => None,
    }
}

/// The path of the folder that holds an entry.
pub fn archive_parent_path_from_entry_path(path: &str) -> (r: Option<String>)
    ensures
        opt_text(r) == folder_of(path@),
{
    match text::rsplit_once(path, '\\') {
        Some((parent, _)) => Some(parent),
        None => None,
    }
}

/// What a file with the given extension holds.
pub open spec fn content_of_extension(extension: Seq<char>) -> ArchiveContentKind {
    let e = lower(extension);
    if e == "rpf"@ {
        ArchiveContentKind::Package
    } else if e == "ydr"@ || e == "yft"@ || e == "ytd"@ {
        ArchiveContentKind::TextureAsset
    } else if e == "xml"@ || e == "meta"@ {
        ArchiveContentKind::XmlText
    } else {
        ArchiveContentKind::File
    }
}

/// What a file with the given extension holds.
pub fn archive_content_kind_for_extension(extension: &str) -> (r: ArchiveContentKind)
    ensures
        r == content_of_extension(extension@),
{
    let lowered = text::to_lower(extension);
    let e = lowered.as_str();
    if text::same_text(e, "rpf") {
        ArchiveContentKind::Package
    } else if text::same_text(e, "ydr") || text::same_text(e, "yft") || text::same_text(e, "ytd") {
        ArchiveContentKind::TextureAsset
    } else if text::same_text(e, "xml") || text::same_text(e, "meta") {
        ArchiveContentKind::XmlText
    } else {
        ArchiveContentKind::File
    }
}

/// The folder of an entry is its path without the last name and the separator before it; a path
/// without a separator lies in none.
pub proof fn an_entry_lies_in_its_folder(path: Seq<char>, folder: Seq<char>, name: Seq<char>)
    ensures
        !name.contains('\\') ==> folder_of(folder.push('\\') + name) == Some(folder),
        folder_of(path) is None <==> !path.contains('\\'),
        folder_of(path) matches Some(parent) ==> parent.len() < path.len() && path.take(
            parent.len() as int + 1,
        ) == parent.push('\\') && !path.skip(parent.len() as int + 1).contains('\\'),
{
    the_last_cut_comes_last(path, '\\');
    if let Some((parent, last)) = cut_last(path, '\\') {
        assert(path.take(parent.len() as int + 1) =~= parent.push('\\'));
        assert(path.skip(parent.len() as int + 1) =~= last);
    }
    if !name.contains('\\') {
        let whole = folder.push('\\') + name;
        the_last_cut_comes_last(whole, '\\');
        assert(whole[folder.len() as int] == '\\');
        if let Some((parent, last)) = cut_last(whole, '\\') {
            if parent.len() < folder.len() {
                assert(last[folder.len() - parent.len() - 1] == '\\');
            } else if parent.len() > folder.len() {
                assert(whole[parent.len() as int] == '\\');
                assert(name[parent.len() - folder.len() - 1] == '\\');
            }
            assert(parent =~= whole.take(parent.len() as int));
            assert(folder =~= whole.take(folder.len() as int));
        }
    }
}

/// What an entry holds agrees with how a file of its own would be opened: archives are packages, the
/// other kinds hold textures, and only what ends in `xml` or `meta` is text.
pub proof fn contents_agree_with_kinds(extension: Seq<char>)
    ensures
        content_of_extension(extension) is Package <==> kind_of_extension(Some(extension)) == Some(
            AssetKind::Rpf,
        ),
        content_of_extension(extension) is TextureAsset <==> kind_of_extension(
            Some(extension),
        ) is Some && kind_of_extension(Some(extension)) != Some(AssetKind::Rpf),
        content_of_extension(extension) is XmlText <==> lower(extension) == "xml"@ || lower(
            extension,
        ) == "meta"@,
        kind_of_extension(Some(extension)) is None && lower(extension) != "xml"@ && lower(extension)
            != "meta"@ ==> content_of_extension(extension) is File,
{
    reveal_strlit("ydr");
    reveal_strlit("yft");
    reveal_strlit("ytd");
    reveal_strlit("rpf");
    reveal_strlit("xml");
    reveal_strlit("meta");
    assert("ydr"@[1] == 'd' && "yft"@[1] == 'f' && "ytd"@[1] == 't' && "rpf"@[1] == 'p');
    assert("xml"@[1] == 'm' && "meta"@.len() == 4 && "xml"@.len() == 3);
    assert("ydr"@.len() == 3 && "yft"@.len() == 3 && "ytd"@.len() == 3 && "rpf"@.len() == 3);
}

proof fn lemma_grown_below(tree: Tree, parent: Seq<char>, node: Tree)
    ensures
        tree.grown(parent, node) matches Some(after) ==> {
            &&& tree.located(parent) is Some
            &&& after.located(parent) == Some(
                Tree {
                    children: tree.located(parent)->0.children.push(node),
                    ..tree.located(parent)->0
                },
            )
            &&& after.path == tree.path && after.name == tree.name && after.kind == tree.kind
            &&& after.display_path == tree.display_path && after.content_kind == tree.content_kind
        },
    decreases tree,
{
    if tree.path != parent {
        lemma_grown_below_in(tree.children, parent, node);
    }
}

proof fn lemma_grown_below_in(children: Seq<Tree>, parent: Seq<char>, node: Tree)
    ensures
        grown_in(children, parent, node) matches Some(after) ==> {
            &&& located_in(children, parent) is Some
            &&& located_in(after, parent) == Some(
                Tree {
                    children: located_in(children, parent)->0.children.push(node),
                    ..located_in(children, parent)->0
                },
            )
            &&& after.len() == children.len()
        },
    decreases children,
{
    if children.len() > 0 {
        let rest = children.subrange(1, children.len() as int);
        lemma_grown_below(children[0], parent, node);
        lemma_grown_below_in(rest, parent, node);
        lemma_grown(children[0], parent, node);
        lemma_located(children[0], parent);
        match children[0].grown(parent, node) {
            Some(first) => {
                lemma_cons(first, rest);
            },
            None => {
                if let Some(after) = grown_in(rest, parent, node) {
                    lemma_cons(children[0], after);
                }
            },
        }
    }
}

/// A node is added as the last child of the node that was asked for, which keeps what it had
/// otherwise; so does the root.
pub proof fn a_node_is_added_below_its_parent(tree: Tree, parent: Seq<char>, node: Tree)
    ensures
        tree.grown(parent, node) matches Some(after) ==> {
            &&& tree.located(parent) is Some
            &&& after.located(parent) == Some(
                Tree {
                    children: tree.located(parent)->0.children.push(node),
                    ..tree.located(parent)->0
                },
            )
            &&& after.path == tree.path && after.name == tree.name && after.kind == tree.kind
            &&& after.display_path == tree.display_path && after.content_kind == tree.content_kind
        },
{
    lemma_grown_below(tree, parent, node);
}

/// Whether a node has a child with the given path.
pub open spec fn has_child(tree: Tree, path: Seq<char>) -> bool {
    exists|i: int| 0 <= i < tree.children.len() && (#[trigger] tree.children[i]).path == path
}

proof fn lemma_parent_is_above(tree: Tree, path: Seq<char>)
    requires
        tree.distinct(),
    ensures
        tree.parent_of(path) matches Some(parent) ==> tree.located(parent) is Some && has_child(
            tree.located(parent)->0,
            path,
        ),
    decreases tree,
{
    lemma_parent_is_above_in(tree.children, tree.path, path);
    lemma_parent_in(tree.children, tree.path, path);
    if let Some(parent) = tree.parent_of(path) {
        if parent == tree.path {
            if !(exists|i: int|
                0 <= i < tree.children.len() && (#[trigger] tree.children[i]).path == path) {
                lemma_located_in(tree.children, tree.path);
            }
        }
    }
}

proof fn lemma_parent_is_above_in(children: Seq<Tree>, own: Seq<char>, path: Seq<char>)
    requires
        distinct_in(children),
    ensures
        parent_in(children, own, path) matches Some(parent) ==> {
            ||| parent == own && exists|i: int|
                0 <= i < children.len() && (#[trigger] children[i]).path == path
            ||| located_in(children, parent) is Some && has_child(
                located_in(children, parent)->0,
                path,
            )
        },
    decreases children,
{
    if children.len() > 0 {
        let first = children[0];
        let rest = children.subrange(1, children.len() as int);
        lemma_parent_is_above(first, path);
        lemma_parent_is_above_in(rest, own, path);
        if first.path == path {
            assert(children[0].path == path);
        } else if first.parent_of(path) is None {
            if let Some(parent) = parent_in(rest, own, path) {
                if exists|i: int| 0 <= i < rest.len() && (#[trigger] rest[i]).path == path {
                    let i = choose|i: int| 0 <= i < rest.len() && (#[trigger] rest[i]).path == path;
                    assert(children[i + 1].path == path);
                }
                if located_in(rest, parent) is Some {
                    lemma_located_in(rest, parent);
                    lemma_located(first, parent);
                }
            }
        }
    }
}

/// Where no path occurs twice, the node above a path is the one that has it as a child.
pub proof fn the_parent_has_the_child(tree: Tree, path: Seq<char>)
    requires
        tree.distinct(),
    ensures
        tree.parent_of(path) matches Some(parent) ==> tree.located(parent) is Some && has_child(
            tree.located(parent)->0,
            path,
        ),
{
    lemma_parent_is_above(tree, path);
}

/// A row shows the node that it stands for: it can be opened where the node is a folder or a package,
/// is open only then, and is selected as the selected file, or as the current folder where no file is
/// selected.
pub proof fn a_row_shows_its_node(node: Tree, by: ShownBy, depth: u32)
    ensures
        ({
            let row = row_of(node, by, depth);
            &&& row.name == node.name && row.path == node.path && row.depth == depth
            &&& row.branch <==> !(node.kind is File)
            &&& row.expanded <==> row.branch && by.expanded.contains(node.path)
            &&& by.selected_file is Some ==> (row.selected <==> by.selected_file->0 == node.path)
            &&& by.selected_file is None ==> (row.selected <==> by.current == Some(node.path))
        }),
{
}

proof fn lemma_rows_hold(node: Tree, k: int, by: ShownBy, depth: u32, j: int)
    requires
        0 <= k <= j < node.children.len(),
        crate::order::is_stable_order(
            stable_order(tree_keys(node.children)),
            tree_keys(node.children),
            node.children.len() as int,
        ),
    ensures
        ({
            let child = node.children[stable_order(tree_keys(node.children))[j]];
            let rows = rows_from(node, k, by, depth);
            name_matches(child.name, by.query) ==> {
                &&& rows.contains(row_of(child, by, depth))
                &&& child.is_branch() && by.expanded.contains(child.path) ==> forall|m: int|
                    0 <= m < rows_below(child, by, deeper(depth)).len() ==> rows.contains(
                        #[trigger] rows_below(child, by, deeper(depth))[m],
                    )
            }
        }),
    decreases j - k,
{
    let order = stable_order(tree_keys(node.children));
    let rows = rows_from(node, k, by, depth);
    let rest = rows_from(node, k + 1, by, depth);
    let here = node.children[order[k]];
    let child = node.children[order[j]];
    assert(0 <= order[k] < node.children.len());
    if k == j {
        if name_matches(child.name, by.query) {
            assert(rows[0] == row_of(child, by, depth));
            if child.is_branch() && by.expanded.contains(child.path) {
                let below = rows_below(child, by, deeper(depth));
                assert forall|m: int| 0 <= m < below.len() implies rows.contains(
                    #[trigger] below[m],
                ) by {
                    assert(rows[m + 1] == below[m]);
                }
            }
        }
    } else {
        lemma_rows_hold(node, k + 1, by, depth, j);
        let skipped = rows.len() - rest.len();
        assert(rows.skip(skipped) =~= rest);
        assert forall|row: RowParts| rest.contains(row) implies rows.contains(row) by {
            let m = choose|m: int| 0 <= m < rest.len() && rest[m] == row;
            assert(rows[m + skipped] == row);
        }
    }
}

/// Each child whose name matches has its row, and where it is an open folder or package the rows
/// below it are shown too, one step deeper.
pub proof fn every_match_has_its_row(node: Tree, by: ShownBy, depth: u32, i: int)
    requires
        0 <= i < node.children.len(),
        by.query matches Some(wanted) ==> occurs(lower(node.children[i].name), wanted),
        depth < u32::MAX,
    ensures
        rows_below(node, by, depth).contains(row_of(node.children[i], by, depth)),
        !(node.children[i].kind is File) && by.expanded.contains(node.children[i].path)
            ==> forall|m: int|
            0 <= m < rows_below(node.children[i], by, (depth + 1) as u32).len() ==> rows_below(
                node,
                by,
                depth,
            ).contains(#[trigger] rows_below(node.children[i], by, (depth + 1) as u32)[m]),
{
    let keys = tree_keys(node.children);
    let n = node.children.len() as int;
    crate::order::the_order_is_stable(keys, n);
    let order = stable_order(keys);
    assert(order.contains(i));
    let j = choose|j: int| 0 <= j < order.len() && order[j] == i;
    lemma_rows_hold(node, 0, by, depth, j);
}

/// Folders come before packages and packages before files; within a kind the names decide,
/// regardless of case.
pub proof fn rows_are_ordered_by_kind_and_name(nodes: Seq<Tree>, a: int, b: int)
    requires
        0 <= a < nodes.len(),
        0 <= b < nodes.len(),
        (nodes[a].kind is Folder && !(nodes[b].kind is Folder)) || (!(nodes[a].kind is File)
            && nodes[b].kind is File) || (nodes[a].kind == nodes[b].kind && text_before(
            lower(nodes[a].name),
            lower(nodes[b].name),
        )),
    ensures
        exists|i: int, j: int|
            0 <= i < j < nodes.len() && #[trigger] stable_order(tree_keys(nodes))[i] == a
                && #[trigger] stable_order(tree_keys(nodes))[j] == b,
{
    let keys = tree_keys(nodes);
    let n = nodes.len() as int;
    crate::order::the_order_is_stable(keys, n);
    let order = stable_order(keys);
    assert(order.contains(a) && order.contains(b));
    let i = choose|i: int| 0 <= i < order.len() && order[i] == a;
    let j = choose|j: int| 0 <= j < order.len() && order[j] == b;
    assert(crate::order::key_before(keys[a], keys[b]));
    crate::text::text_order_is_total(keys[a].text, keys[b].text);
    if j < i {
        assert(!crate::order::key_before(keys[order[i]], keys[order[j]]));
    }
    assert(i < j) by {
        if i == j {
            crate::text::text_order_is_total(keys[a].text, keys[a].text);
        }
    }
    assert(order[i] == a && order[j] == b);
}

/// A name is found by every part of it, in letters of either case, and by nothing that holds a character
/// that the name does not have; without a search every name is shown.
pub proof fn a_name_is_found_by_its_parts(
    front: Seq<char>,
    part: Seq<char>,
    back: Seq<char>,
    wanted: Seq<char>,
    k: int,
)
    ensures
        name_matches(front, None),
        lower(part) == lower(wanted) ==> name_matches(front + part + back, Some(lower(wanted))),
        0 <= k < wanted.len() && !lower(front).contains(wanted[k]) ==> !name_matches(
            front,
            Some(wanted),
        ),
{
    let name = front + part + back;
    if lower(part) == lower(wanted) {
        let low = lower(name);
        let at = front.len() as int;
        assert(low.subrange(at, at + lower(part).len()) =~= lower(part));
        assert(occurs_at(low, lower(wanted), at));
    }
    if 0 <= k < wanted.len() && name_matches(front, Some(wanted)) {
        let low = lower(front);
        let i = choose|i: int| occurs_at(low, wanted, i);
        assert(low.subrange(i, i + wanted.len())[k] == low[i + k]);
        assert(low.contains(wanted[k]));
    }
}

/// Whether a row is that of a child of a node whose name matches, or stands below such a child that is
/// open.
pub open spec fn shown_for(node: Tree, by: ShownBy, depth: u32, row: RowParts, i: int) -> bool {
    &&& 0 <= i < node.children.len() && name_matches(node.children[i].name, by.query)
    &&& row == row_of(node.children[i], by, depth) || (!(node.children[i].kind is File)
        && by.expanded.contains(node.children[i].path) && rows_below(
        node.children[i],
        by,
        deeper(depth),
    ).contains(row))
}

/// Only what is open is shown: every row below a node is that of one of its children, or stands below one
/// that is open.
pub proof fn only_what_is_open_is_shown(node: Tree, by: ShownBy, depth: u32, m: int)
    requires
        0 <= m < rows_below(node, by, depth).len(),
    ensures
        exists|i: int| #[trigger] shown_for(node, by, depth, rows_below(node, by, depth)[m], i),
{
    let keys = tree_keys(node.children);
    crate::order::the_order_is_stable(keys, node.children.len() as int);
    lemma_rows_shown(node, 0, by, depth, m);
}

proof fn lemma_rows_shown(node: Tree, k: int, by: ShownBy, depth: u32, m: int)
    requires
        0 <= k <= node.children.len(),
        0 <= m < rows_from(node, k, by, depth).len(),
        crate::order::is_stable_order(
            stable_order(tree_keys(node.children)),
            tree_keys(node.children),
            node.children.len() as int,
        ),
    ensures
        exists|i: int| #[trigger] shown_for(node, by, depth, rows_from(node, k, by, depth)[m], i),
    decreases node.children.len() - k,
{
    let rows = rows_from(node, k, by, depth);
    let at = stable_order(tree_keys(node.children))[k];
    assert(k < node.children.len());
    assert(0 <= at < node.children.len());
    let child = node.children[at];
    let rest = rows_from(node, k + 1, by, depth);
    let below = if child.is_branch() && by.expanded.contains(child.path) {
        rows_below(child, by, deeper(depth))
    } else {
        Seq::empty()
    };
    if !name_matches(child.name, by.query) {
        lemma_rows_shown(node, k + 1, by, depth, m);
    } else {
        assert(rows =~= seq![row_of(child, by, depth)] + below + rest);
        if m == 0 {
            assert(shown_for(node, by, depth, rows[m], at));
        } else if m <= below.len() {
            assert(rows[m] == below[m - 1]);
            assert(below.contains(rows[m]));
            assert(shown_for(node, by, depth, rows[m], at));
        } else {
            lemma_rows_shown(node, k + 1, by, depth, m - 1 - below.len());
            assert(rows[m] == rest[m - 1 - below.len()]);
        }
    }
}

}
