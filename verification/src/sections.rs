//! The replacement layout: a tree of sections that split a texture into equal parts.

use crate::layout_laws::{
    adding_keeps_a_layout_well_formed, picturing_keeps_a_layout_well_formed,
    removing_keeps_a_layout_well_formed,
};
use std::path::PathBuf;
use vstd::prelude::*;

verus! {

/// How a group stacks its children: rows lie on top of each other, columns side by side.
#[derive(Clone, Copy, PartialEq, Eq, Structural)]
pub enum SplitAxis {
    Horizontal,
    Vertical,
}

/// A section that shows one image. A preview is a number under which the shell keeps a picture.
pub struct LeafSection {
    pub id: u64,
    pub image_path: Option<PathBuf>,
    pub preview_texture: Option<u64>,
}

/// A section that is split along one axis.
pub struct GroupSection {
    pub id: u64,
    pub axis: SplitAxis,
    pub children: Vec<SectionNode>,
}

/// A section of the layout.
pub enum SectionNode {
    Leaf(LeafSection),
    Group(GroupSection),
}

/// A layout as a mathematical tree.
#[verifier::ext_equal]
pub enum Layout {
    Leaf { id: u64, image: Option<PathBuf>, preview: Option<u64> },
    Group { id: u64, axis: SplitAxis, children: Seq<Layout> },
}

/// A rectangle of pixels.
#[derive(Clone, Copy, PartialEq, Eq, Structural)]
pub struct PixelRect {
    pub x: u32,
    pub y: u32,
    pub width: u32,
    pub height: u32,
}

/// One image of a composition and the place that it fills.
pub struct CompositionCell {
    pub rect: PixelRect,
    pub image_path: PathBuf,
    pub keep_alpha: bool,
}

/// A section without an image keeps a composition from being made.
#[derive(Clone, Copy, PartialEq, Eq, Structural)]
pub struct MissingImage;

impl MissingImage {
    /// What the user is told.
    pub fn message(self) -> (r: &'static str)
        ensures
            r@ == "Every section needs an image before applying changes"@,
    {
        "Every section needs an image before applying changes"
    }
}

impl View for SectionNode {
    type V = Layout;

    open spec fn view(&self) -> Layout
        decreases self,
    {
        match self {
            SectionNode::Leaf(leaf) => Layout::Leaf {
                id: leaf.id,
                image: leaf.image_path,
                preview: leaf.preview_texture,
            },
            SectionNode::Group(group) => Layout::Group {
                id: group.id,
                axis: group.axis,
                children: Seq::new(
                    group.children@.len(),
                    |i: int|
                        if 0 <= i < group.children@.len() {
                            group.children@[i]@
                        } else {
                            arbitrary()
                        },
                ),
            },
        }
    }
}

/// The layouts of a list of sections.
pub open spec fn layouts(nodes: Seq<SectionNode>) -> Seq<Layout> {
    Seq::new(nodes.len(), |i: int| nodes[i]@)
}

/// A leaf without an image.
pub open spec fn blank(id: u64) -> Layout {
    Layout::Leaf { id, image: None, preview: None }
}

impl Layout {
    pub open spec fn id(self) -> u64 {
        match self {
            Layout::Leaf { id, .. } => id,
            Layout::Group { id, .. } => id,
        }
    }

    /// The identifiers that occur in the layout.
    pub open spec fn ids(self) -> Set<u64>
        decreases self,
    {
        match self {
            Layout::Leaf { id, .. } => set![id],
            Layout::Group { id, children, .. } => ids_in(children).insert(id),
        }
    }

    /// No identifier occurs twice.
    pub open spec fn distinct(self) -> bool
        decreases self,
    {
        match self {
            Layout::Leaf { .. } => true,
            Layout::Group { id, children, .. } => !ids_in(children).contains(id) && distinct_in(
                children,
            ),
        }
    }

    /// Every group has at least two children.
    pub open spec fn split(self) -> bool
        decreases self,
    {
        match self {
            Layout::Leaf { .. } => true,
            Layout::Group { children, .. } => children.len() >= 2 && split_in(children),
        }
    }

    /// How many leaves have no image.
    pub open spec fn missing(self) -> nat
        decreases self,
    {
        match self {
            Layout::Leaf { image, .. } => if image is None {
                1
            } else {
                0
            },
            Layout::Group { children, .. } => missing_in(children),
        }
    }

    /// The layout after a section was added to the section `target`, and the next free
    /// identifier; nothing where no section has that identifier.
    ///
    /// A group that is split along `axis` gets one more child. Any other section gets a sibling
    /// right behind it where it is a child of a group that is split along `axis`; elsewhere it
    /// becomes the first of two children of a new group.
    pub open spec fn added(self, target: u64, axis: SplitAxis, next: int) -> Option<(Layout, int)>
        decreases self,
    {
        if self.id() == target {
            match self {
                Layout::Group { id, axis: own, children } if own == axis => Some(
                    (
                        Layout::Group { id, axis, children: children.push(blank(next as u64)) },
                        next + 1,
                    ),
                ),
                _ => Some(
                    (
                        Layout::Group {
                            id: next as u64,
                            axis,
                            children: seq![self, blank((next + 1) as u64)],
                        },
                        next + 2,
                    ),
                ),
            }
        } else {
            match self {
                Layout::Leaf { .. } => None,
                Layout::Group { id, axis: own, children } => if own == axis && sibling_place(
                    children,
                    target,
                    axis,
                ) is Some {
                    let behind = sibling_place(children, target, axis)->0;
                    Some(
                        (
                            Layout::Group {
                                id,
                                axis,
                                children: children.insert(behind, blank(next as u64)),
                            },
                            next + 1,
                        ),
                    )
                } else {
                    match added_in(children, target, axis, next) {
                        Some((changed, after)) => Some(
                            (Layout::Group { id, axis: own, children: changed }, after),
                        ),
                        None => None,
                    }
                },
            }
        }
    }

    /// The section `target`, where there is one.
    pub open spec fn section(self, target: u64) -> Option<Layout>
        decreases self,
    {
        if self.id() == target {
            Some(self)
        } else {
            match self {
                Layout::Leaf { .. } => None,
                Layout::Group { children, .. } => section_in(children, target),
            }
        }
    }

    /// The layout with another section in the place of the section `target`.
    pub open spec fn with_section(self, target: u64, new: Layout) -> Layout
        decreases self,
    {
        if self.id() == target {
            new
        } else {
            match self {
                Layout::Leaf { .. } => self,
                Layout::Group { id, axis, children } => Layout::Group {
                    id,
                    axis,
                    children: with_section_in(children, target, new),
                },
            }
        }
    }

    /// The children of the group along `axis` that has the section `target` as a child, where
    /// there is one.
    pub open spec fn siblings(self, target: u64, axis: SplitAxis) -> Option<Seq<Layout>>
        decreases self,
    {
        match self {
            Layout::Leaf { .. } => None,
            Layout::Group { axis: own, children, .. } => if own == axis && child_at(
                children,
                target,
            ) is Some {
                Some(children)
            } else {
                siblings_in(children, target, axis)
            },
        }
    }

    /// Whether the section itself is split along `axis`.
    pub open spec fn runs_along(self, axis: SplitAxis) -> bool {
        self matches Layout::Group { axis: own, .. } && own == axis
    }

    /// Every group has a child.
    pub open spec fn inhabited(self) -> bool
        decreases self,
    {
        match self {
            Layout::Leaf { .. } => true,
            Layout::Group { children, .. } => children.len() > 0 && inhabited_in(children),
        }
    }

    /// The layout after the leaf `target` got an image; nothing where no leaf has that
    /// identifier.
    pub open spec fn pictured(self, target: u64, path: PathBuf, preview: u64) -> Option<Layout>
        decreases self,
    {
        match self {
            Layout::Leaf { id, .. } => if id == target {
                Some(Layout::Leaf { id, image: Some(path), preview: Some(preview) })
            } else {
                None
            },
            Layout::Group { id, axis, children } => match pictured_in(
                children,
                target,
                path,
                preview,
            ) {
                Some(changed) => Some(Layout::Group { id, axis, children: changed }),
                None => None,
            },
        }
    }

    /// The layout after the section `target` was taken out of a group that is split along
    /// `axis`; nothing where there is no such section or it is the only child.
    ///
    /// A group of which one child is left is replaced by that child.
    pub open spec fn removed(self, target: u64, axis: SplitAxis) -> Option<Layout>
        decreases self,
    {
        match self {
            Layout::Leaf { .. } => None,
            Layout::Group { id, axis: own, children } => if own == axis && child_at(
                children,
                target,
            ) is Some {
                if children.len() <= 1 {
                    None
                } else {
                    Some(regrouped(id, own, children.remove(child_at(children, target)->0)))
                }
            } else {
                match removed_in(children, target, axis) {
                    Some(changed) => Some(regrouped(id, own, changed)),
                    None => None,
                }
            },
        }
    }
}

/// A group of the given children, or the child itself where there is only one.
pub open spec fn regrouped(id: u64, axis: SplitAxis, children: Seq<Layout>) -> Layout {
    if children.len() == 1 {
        children[0]
    } else {
        Layout::Group { id, axis, children }
    }
}

/// The position of the first child with the given identifier.
pub open spec fn child_at(children: Seq<Layout>, target: u64) -> Option<int>
    decreases children.len(),
{
    if children.len() == 0 {
        None
    } else if children[0].id() == target {
        Some(0)
    } else {
        match child_at(children.skip(1), target) {
            Some(i) => Some(i + 1),
            None => None,
        }
    }
}

/// Where a sibling of the child with the given identifier goes, in a group that is split along
/// `axis`: right behind the child. A child that is itself split along `axis` gets none.
pub open spec fn sibling_place(children: Seq<Layout>, target: u64, axis: SplitAxis) -> Option<int> {
    match child_at(children, target) {
        Some(i) if !children[i].runs_along(axis) => Some(i + 1),
        _ => None,
    }
}

pub open spec fn ids_in(children: Seq<Layout>) -> Set<u64>
    decreases children,
{
    if children.len() == 0 {
        Set::empty()
    } else {
        children[0].ids().union(ids_in(children.subrange(1, children.len() as int)))
    }
}

pub open spec fn distinct_in(children: Seq<Layout>) -> bool
    decreases children,
{
    children.len() > 0 ==> {
        let rest = children.subrange(1, children.len() as int);
        &&& children[0].distinct()
        &&& children[0].ids().disjoint(ids_in(rest))
        &&& distinct_in(rest)
    }
}

pub open spec fn split_in(children: Seq<Layout>) -> bool
    decreases children,
{
    children.len() > 0 ==> children[0].split() && split_in(
        children.subrange(1, children.len() as int),
    )
}

pub open spec fn inhabited_in(children: Seq<Layout>) -> bool
    decreases children,
{
    children.len() > 0 ==> children[0].inhabited() && inhabited_in(
        children.subrange(1, children.len() as int),
    )
}

/// The section `target` in the first of the children that has it.
pub open spec fn section_in(children: Seq<Layout>, target: u64) -> Option<Layout>
    decreases children,
{
    if children.len() == 0 {
        None
    } else {
        match children[0].section(target) {
            Some(section) => Some(section),
            None => section_in(children.subrange(1, children.len() as int), target),
        }
    }
}

/// The children with another section in the place of the section `target`.
pub open spec fn with_section_in(children: Seq<Layout>, target: u64, new: Layout) -> Seq<Layout>
    decreases children,
{
    if children.len() == 0 {
        children
    } else {
        seq![children[0].with_section(target, new)] + with_section_in(
            children.subrange(1, children.len() as int),
            target,
            new,
        )
    }
}

/// The siblings of the section `target` in the first of the children that has them.
pub open spec fn siblings_in(children: Seq<Layout>, target: u64, axis: SplitAxis) -> Option<
    Seq<Layout>,
>
    decreases children,
{
    if children.len() == 0 {
        None
    } else {
        match children[0].siblings(target, axis) {
            Some(siblings) => Some(siblings),
            None => siblings_in(children.subrange(1, children.len() as int), target, axis),
        }
    }
}

pub open spec fn missing_in(children: Seq<Layout>) -> nat
    decreases children,
{
    if children.len() == 0 {
        0
    } else {
        children[0].missing() + missing_in(children.subrange(1, children.len() as int))
    }
}

/// The children after a section was added to the first of them that has the section `target`.
pub open spec fn added_in(children: Seq<Layout>, target: u64, axis: SplitAxis, next: int) -> Option<
    (Seq<Layout>, int),
>
    decreases children,
{
    if children.len() == 0 {
        None
    } else {
        let rest = children.subrange(1, children.len() as int);
        match children[0].added(target, axis, next) {
            Some((changed, after)) => Some((seq![changed] + rest, after)),
            None => match added_in(rest, target, axis, next) {
                Some((changed, after)) => Some((seq![children[0]] + changed, after)),
                None => None,
            },
        }
    }
}

/// The children after the first of them that has the leaf `target` got an image in it.
pub open spec fn pictured_in(
    children: Seq<Layout>,
    target: u64,
    path: PathBuf,
    preview: u64,
) -> Option<Seq<Layout>>
    decreases children,
{
    if children.len() == 0 {
        None
    } else {
        let rest = children.subrange(1, children.len() as int);
        match children[0].pictured(target, path, preview) {
            Some(changed) => Some(seq![changed] + rest),
            None => match pictured_in(rest, target, path, preview) {
                Some(changed) => Some(seq![children[0]] + changed),
                None => None,
            },
        }
    }
}

/// The children after a section was taken out of the first of them where that is possible.
pub open spec fn removed_in(children: Seq<Layout>, target: u64, axis: SplitAxis) -> Option<
    Seq<Layout>,
>
    decreases children,
{
    if children.len() == 0 {
        None
    } else {
        let rest = children.subrange(1, children.len() as int);
        match children[0].removed(target, axis) {
            Some(changed) => Some(seq![changed] + rest),
            None => match removed_in(rest, target, axis) {
                Some(changed) => Some(seq![children[0]] + changed),
                None => None,
            },
        }
    }
}

proof fn lemma_added_in_at(
    children: Seq<Layout>,
    target: u64,
    axis: SplitAxis,
    next: int,
    i: int,
)
    requires
        0 <= i <= children.len(),
        forall|j: int|
            0 <= j < i ==> (#[trigger] children[j]).added(target, axis, next) is None,
    ensures
        i == children.len() ==> added_in(children, target, axis, next) is None,
        i < children.len() ==> (children[i].added(target, axis, next) matches Some((c, n))
            ==> added_in(children, target, axis, next) == Some((children.update(i, c), n))),
    decreases i,
{
    let rest = children.subrange(1, children.len() as int);
    if i == 0 {
        if children.len() > 0 {
            if let Some((c, n)) = children[0].added(target, axis, next) {
                assert(seq![c] + rest =~= children.update(0, c));
            }
        }
    } else {
        assert forall|j: int| 0 <= j < i - 1 implies (#[trigger] rest[j]).added(
            target,
            axis,
            next,
        ) is None by {
            assert(rest[j] == children[j + 1]);
        }
        lemma_added_in_at(rest, target, axis, next, i - 1);
        assert(children[0].added(target, axis, next) is None);
        if i < children.len() {
            assert(rest[i - 1] == children[i]);
            if let Some((c, n)) = children[i].added(target, axis, next) {
                assert(seq![children[0]] + rest.update(i - 1, c) =~= children.update(i, c));
            }
        }
    }
}

proof fn lemma_pictured_in_at(
    children: Seq<Layout>,
    target: u64,
    path: PathBuf,
    preview: u64,
    i: int,
)
    requires
        0 <= i <= children.len(),
        forall|j: int|
            0 <= j < i ==> (#[trigger] children[j]).pictured(target, path, preview) is None,
    ensures
        i == children.len() ==> pictured_in(children, target, path, preview) is None,
        i < children.len() ==> (children[i].pictured(target, path, preview) matches Some(c)
            ==> pictured_in(children, target, path, preview) == Some(children.update(i, c))),
    decreases i,
{
    let rest = children.subrange(1, children.len() as int);
    if i == 0 {
        if children.len() > 0 {
            if let Some(c) = children[0].pictured(target, path, preview) {
                assert(seq![c] + rest =~= children.update(0, c));
            }
        }
    } else {
        assert forall|j: int| 0 <= j < i - 1 implies (#[trigger] rest[j]).pictured(
            target,
            path,
            preview,
        ) is None by {
            assert(rest[j] == children[j + 1]);
        }
        lemma_pictured_in_at(rest, target, path, preview, i - 1);
        assert(children[0].pictured(target, path, preview) is None);
        if i < children.len() {
            assert(rest[i - 1] == children[i]);
            if let Some(c) = children[i].pictured(target, path, preview) {
                assert(seq![children[0]] + rest.update(i - 1, c) =~= children.update(i, c));
            }
        }
    }
}

proof fn lemma_removed_in_at(children: Seq<Layout>, target: u64, axis: SplitAxis, i: int)
    requires
        0 <= i <= children.len(),
        forall|j: int| 0 <= j < i ==> (#[trigger] children[j]).removed(target, axis) is None,
    ensures
        i == children.len() ==> removed_in(children, target, axis) is None,
        i < children.len() ==> (children[i].removed(target, axis) matches Some(c) ==> removed_in(
            children,
            target,
            axis,
        ) == Some(children.update(i, c))),
    decreases i,
{
    let rest = children.subrange(1, children.len() as int);
    if i == 0 {
        if children.len() > 0 {
            if let Some(c) = children[0].removed(target, axis) {
                assert(seq![c] + rest =~= children.update(0, c));
            }
        }
    } else {
        assert forall|j: int| 0 <= j < i - 1 implies (#[trigger] rest[j]).removed(
            target,
            axis,
        ) is None by {
            assert(rest[j] == children[j + 1]);
        }
        lemma_removed_in_at(rest, target, axis, i - 1);
        assert(children[0].removed(target, axis) is None);
        if i < children.len() {
            assert(rest[i - 1] == children[i]);
            if let Some(c) = children[i].removed(target, axis) {
                assert(seq![children[0]] + rest.update(i - 1, c) =~= children.update(i, c));
            }
        }
    }
}

proof fn lemma_child_at(children: Seq<Layout>, target: u64, i: int)
    requires
        0 <= i <= children.len(),
        forall|j: int| 0 <= j < i ==> (#[trigger] children[j]).id() != target,
    ensures
        i == children.len() ==> child_at(children, target) is None,
        i < children.len() && children[i].id() == target ==> child_at(children, target) == Some(i),
    decreases i,
{
    if i > 0 {
        let rest = children.skip(1);
        assert forall|j: int| 0 <= j < i - 1 implies (#[trigger] rest[j]).id() != target by {
            assert(rest[j] == children[j + 1]);
        }
        assert(children[0].id() != target);
        lemma_child_at(rest, target, i - 1);
        if i < children.len() {
            assert(rest[i - 1] == children[i]);
        }
    }
}

/// A group section holds the layouts of its children.
proof fn lemma_node_view(node: SectionNode)
    ensures
        node matches SectionNode::Group(group) ==> node@ == (Layout::Group {
            id: group.id,
            axis: group.axis,
            children: layouts(group.children@),
        }),
{
    if let SectionNode::Group(group) = node {
        reveal_with_fuel(<SectionNode as View>::view, 2);
        assert forall|i: int| 0 <= i < group.children@.len() implies #[trigger] node@->Group_children[i]
            == group.children@[i]@ by {}
        assert(node@->Group_children =~= layouts(group.children@));
    }
}

impl SectionNode {
    /// A leaf without an image.
    pub fn empty_leaf(id: u64) -> (r: SectionNode)
        ensures
            r@ == blank(id),
    {
        SectionNode::Leaf(LeafSection { id, image_path: None, preview_texture: None })
    }

    /// The identifier of the section.
    pub fn id(&self) -> (r: u64)
        ensures
            r == self@.id(),
    {
        match self {
            SectionNode::Leaf(leaf) => leaf.id,
            SectionNode::Group(group) => group.id,
        }
    }

    /// Adds a section next to, or inside, the section `section_id`.
    pub fn add_section(&mut self, section_id: u64, axis: SplitAxis, next_id: &mut u64) -> (r: bool)
        requires
            old(self)@.added(section_id, axis, *old(next_id) as int) matches Some((_, after))
                ==> after <= u64::MAX,
        ensures
            r == (old(self)@.added(section_id, axis, *old(next_id) as int) is Some),
            match old(self)@.added(section_id, axis, *old(next_id) as int) {
                Some((layout, after)) => final(self)@ == layout && *final(next_id) == after,
                None => final(self)@ == old(self)@ && *final(next_id) == *old(next_id),
            },
        decreases *old(self),
    {
        let ghost before = self@;
        proof {
            lemma_node_view(*self);
        }
        if self.id() == section_id {
            match self {
                SectionNode::Group(group) => {
                    if group.axis == axis {
                        let ghost kids = layouts(group.children@);
                        let new_leaf_id = *next_id;
                        *next_id += 1;
                        group.children.push(SectionNode::empty_leaf(new_leaf_id));
                        proof {
                            lemma_node_view(SectionNode::Group(*group));
                            assert(layouts(group.children@) =~= kids.push(blank(new_leaf_id)));
                        }
                        return true;
                    }
                },
                SectionNode::Leaf(_) => {},
            }
            let mut existing = SectionNode::empty_leaf(0);
            std::mem::swap(&mut existing, self);
            let group_id = *next_id;
            *next_id += 1;
            let new_leaf_id = *next_id;
            *next_id += 1;
            let mut children: Vec<SectionNode> = Vec::new();
            children.push(existing);
            children.push(SectionNode::empty_leaf(new_leaf_id));
            let group = GroupSection { id: group_id, axis, children };
            proof {
                lemma_node_view(SectionNode::Group(group));
                assert(layouts(group.children@) =~= seq![before, blank(new_leaf_id)]);
            }
            *self = SectionNode::Group(group);
            return true;
        }
        match self {
            SectionNode::Group(group) => {
                if group.axis == axis {
                    if let Some(place) = Self::place_for_sibling(&group.children, section_id, axis) {
                        let ghost kids = layouts(group.children@);
                        let new_leaf_id = *next_id;
                        *next_id += 1;
                        group.children.insert(place, SectionNode::empty_leaf(new_leaf_id));
                        proof {
                            lemma_node_view(SectionNode::Group(*group));
                            assert(layouts(group.children@) =~= kids.insert(
                                place as int,
                                blank(new_leaf_id),
                            ));
                        }
                        return true;
                    }
                }
                let done = Self::add_in(&mut group.children, section_id, axis, next_id);
                proof {
                    lemma_node_view(SectionNode::Group(*group));
                }
                done
            },
            SectionNode::Leaf(_) => false,
        }
    }

    /// Whether the section is itself split along an axis.
    fn is_along(&self, axis: SplitAxis) -> (r: bool)
        ensures
            r == self@.runs_along(axis),
    {
        match self {
            SectionNode::Leaf(_) => false,
            SectionNode::Group(group) => group.axis == axis,
        }
    }

    fn place_for_sibling(children: &Vec<SectionNode>, section_id: u64, axis: SplitAxis) -> (r: Option<
        usize,
    >)
        ensures
            match r {
                Some(place) => place <= children@.len() && sibling_place(
                    layouts(children@),
                    section_id,
                    axis,
                ) == Some(place as int),
                None => sibling_place(layouts(children@), section_id, axis) is None,
            },
    {
        match Self::position_of(children, section_id) {
            Some(index) => {
                let count: usize = children.len();
                assert(index < count);
                assert(layouts(children@)[index as int] == children@[index as int]@);
                if children[index].is_along(axis) {
                    None
                } else {
                    Some(index + 1)
                }
            },
            None => None,
        }
    }

    fn add_in(
        children: &mut Vec<SectionNode>,
        section_id: u64,
        axis: SplitAxis,
        next_id: &mut u64,
    ) -> (r: bool)
        requires
            added_in(layouts(old(children)@), section_id, axis, *old(next_id) as int) matches Some(
                (_, after),
            ) ==> after <= u64::MAX,
        ensures
            r == (added_in(layouts(old(children)@), section_id, axis, *old(next_id) as int) is Some),
            match added_in(layouts(old(children)@), section_id, axis, *old(next_id) as int) {
                Some((changed, after)) => layouts(final(children)@) == changed && *final(next_id)
                    == after,
                None => layouts(final(children)@) == layouts(old(children)@) && *final(next_id)
                    == *old(next_id),
            },
        decreases *old(children),
    {
        let ghost kids = layouts(children@);
        let ghost next = *next_id as int;
        let mut index: usize = 0;
        while index < children.len()
            invariant
                0 <= index <= children@.len(),
                kids == layouts(old(children)@),
                layouts(children@) == kids,
                forall|j: int|
                    index <= j < children@.len() ==> #[trigger] children@[j] == old(children)@[j],
                *next_id == *old(next_id),
                next == *next_id,
                added_in(kids, section_id, axis, next) matches Some((_, after)) ==> after
                    <= u64::MAX,
                forall|j: int|
                    0 <= j < index ==> (#[trigger] kids[j]).added(section_id, axis, next) is None,
            decreases children@.len() - index,
        {
            let ghost nodes = children@;
            proof {
                lemma_added_in_at(kids, section_id, axis, next, index as int);
                assert(layouts(nodes)[index as int] == nodes[index as int]@);
            }
            if children[index].add_section(section_id, axis, next_id) {
                proof {
                    let (c, _) = kids[index as int].added(section_id, axis, next)->0;
                    assert(layouts(children@) =~= kids.update(index as int, c));
                }
                return true;
            }
            proof {
                assert(layouts(children@) =~= layouts(nodes));
            }
            index += 1;
        }
        proof {
            lemma_added_in_at(kids, section_id, axis, next, index as int);
        }
        false
    }

    /// Puts an image into the leaf `leaf_id`.
    pub fn set_leaf_image(&mut self, leaf_id: u64, image_path: PathBuf, texture: u64) -> (r: bool)
        ensures
            r == (old(self)@.pictured(leaf_id, image_path, texture) is Some),
            match old(self)@.pictured(leaf_id, image_path, texture) {
                Some(layout) => final(self)@ == layout,
                None => final(self)@ == old(self)@,
            },
        decreases *old(self),
    {
        proof {
            lemma_node_view(*self);
        }
        match self {
            SectionNode::Leaf(leaf) => {
                if leaf.id == leaf_id {
                    leaf.image_path = Some(image_path);
                    leaf.preview_texture = Some(texture);
                    true
                } else {
                    false
                }
            },
            SectionNode::Group(group) => {
                let done = Self::set_image_in(&mut group.children, leaf_id, image_path, texture);
                proof {
                    lemma_node_view(SectionNode::Group(*group));
                }
                done
            },
        }
    }

    fn set_image_in(
        children: &mut Vec<SectionNode>,
        leaf_id: u64,
        image_path: PathBuf,
        texture: u64,
    ) -> (r: bool)
        ensures
            r == (pictured_in(layouts(old(children)@), leaf_id, image_path, texture) is Some),
            match pictured_in(layouts(old(children)@), leaf_id, image_path, texture) {
                Some(changed) => layouts(final(children)@) == changed,
                None => layouts(final(children)@) == layouts(old(children)@),
            },
        decreases *old(children),
    {
        let ghost kids = layouts(children@);
        let mut index: usize = 0;
        while index < children.len()
            invariant
                0 <= index <= children@.len(),
                kids == layouts(old(children)@),
                layouts(children@) == kids,
                forall|j: int|
                    index <= j < children@.len() ==> #[trigger] children@[j] == old(children)@[j],
                forall|j: int|
                    0 <= j < index ==> (#[trigger] kids[j]).pictured(
                        leaf_id,
                        image_path,
                        texture,
                    ) is None,
            decreases children@.len() - index,
        {
            let ghost nodes = children@;
            proof {
                lemma_pictured_in_at(kids, leaf_id, image_path, texture, index as int);
                assert(layouts(nodes)[index as int] == nodes[index as int]@);
            }
            if children[index].set_leaf_image(leaf_id, image_path.clone(), texture) {
                proof {
                    let c = kids[index as int].pictured(leaf_id, image_path, texture)->0;
                    assert(layouts(children@) =~= kids.update(index as int, c));
                }
                return true;
            }
            proof {
                assert(layouts(children@) =~= layouts(nodes));
            }
            index += 1;
        }
        proof {
            lemma_pictured_in_at(kids, leaf_id, image_path, texture, index as int);
        }
        false
    }

    fn position_of(children: &Vec<SectionNode>, section_id: u64) -> (r: Option<usize>)
        ensures
            match r {
                Some(i) => i < children@.len() && child_at(layouts(children@), section_id) == Some(
                    i as int,
                ),
                None => child_at(layouts(children@), section_id) is None,
            },
    {
        let ghost kids = layouts(children@);
        let mut index: usize = 0;
        while index < children.len()
            invariant
                0 <= index <= children@.len(),
                kids == layouts(children@),
                forall|j: int| 0 <= j < index ==> (#[trigger] kids[j]).id() != section_id,
            decreases children@.len() - index,
        {
            assert(kids[index as int] == children@[index as int]@);
            if children[index].id() == section_id {
                proof {
                    lemma_child_at(kids, section_id, index as int);
                }
                return Some(index);
            }
            index += 1;
        }
        proof {
            lemma_child_at(kids, section_id, index as int);
        }
        None
    }

    /// Takes the section `section_id` out of a group that is split along `axis`.
    pub fn remove_section(&mut self, section_id: u64, axis: SplitAxis) -> (r: bool)
        ensures
            r == (old(self)@.removed(section_id, axis) is Some),
            match old(self)@.removed(section_id, axis) {
                Some(layout) => final(self)@ == layout,
                None => final(self)@ == old(self)@,
            },
        decreases *old(self),
    {
        proof {
            lemma_node_view(*self);
        }
        let ghost before = self@;
        let lone: bool;
        match self {
            SectionNode::Group(group) => {
                let ghost kids = layouts(group.children@);
                let position = if group.axis == axis {
                    Self::position_of(&group.children, section_id)
                } else {
                    None
                };
                match position {
                    Some(index) => {
                        if group.children.len() <= 1 {
                            return false;
                        }
                        group.children.remove(index);
                        proof {
                            assert(layouts(group.children@) =~= kids.remove(index as int));
                        }
                    },
                    None => {
                        let done = Self::remove_in(&mut group.children, section_id, axis);
                        if !done {
                            proof {
                                lemma_node_view(SectionNode::Group(*group));
                            }
                            return false;
                        }
                    },
                }
                lone = group.children.len() == 1;
                proof {
                    lemma_node_view(SectionNode::Group(*group));
                    assert(before.removed(section_id, axis) == Some(
                        regrouped(group.id, group.axis, layouts(group.children@)),
                    ));
                }
            },
            SectionNode::Leaf(_) => {
                return false;
            },
        }
        if lone {
            let mut own = SectionNode::empty_leaf(0);
            std::mem::swap(&mut own, self);
            match own {
                SectionNode::Group(group) => {
                    let mut group = group;
                    proof {
                        assert(layouts(group.children@)[0] == group.children@[0]@);
                    }
                    let remaining = group.children.remove(0);
                    *self = remaining;
                },
                SectionNode::Leaf(_) => {},
            }
        }
        true
    }

    fn remove_in(children: &mut Vec<SectionNode>, section_id: u64, axis: SplitAxis) -> (r: bool)
        ensures
            r == (removed_in(layouts(old(children)@), section_id, axis) is Some),
            match removed_in(layouts(old(children)@), section_id, axis) {
                Some(changed) => layouts(final(children)@) == changed,
                None => layouts(final(children)@) == layouts(old(children)@),
            },
        decreases *old(children),
    {
        let ghost kids = layouts(children@);
        let mut index: usize = 0;
        while index < children.len()
            invariant
                0 <= index <= children@.len(),
                kids == layouts(old(children)@),
                layouts(children@) == kids,
                forall|j: int|
                    index <= j < children@.len() ==> #[trigger] children@[j] == old(children)@[j],
                forall|j: int|
                    0 <= j < index ==> (#[trigger] kids[j]).removed(section_id, axis) is None,
            decreases children@.len() - index,
        {
            let ghost nodes = children@;
            proof {
                lemma_removed_in_at(kids, section_id, axis, index as int);
                assert(layouts(nodes)[index as int] == nodes[index as int]@);
            }
            if children[index].remove_section(section_id, axis) {
                proof {
                    let c = kids[index as int].removed(section_id, axis)->0;
                    assert(layouts(children@) =~= kids.update(index as int, c));
                }
                return true;
            }
            proof {
                assert(layouts(children@) =~= layouts(nodes));
            }
            index += 1;
        }
        proof {
            lemma_removed_in_at(kids, section_id, axis, index as int);
        }
        false
    }

    /// How many leaves have no image.
    pub fn count_missing_images(&self) -> (r: usize)
        requires
            self@.missing() <= usize::MAX,
        ensures
            r == self@.missing(),
        decreases self,
    {
        proof {
            lemma_node_view(*self);
        }
        match self {
            SectionNode::Leaf(leaf) => if leaf.image_path.is_none() {
                1
            } else {
                0
            },
            SectionNode::Group(group) => {
                let ghost kids = layouts(group.children@);
                let mut total: usize = 0;
                let mut index: usize = 0;
                assert(kids.skip(0) =~= kids);
                while index < group.children.len()
                    invariant
                        0 <= index <= group.children@.len(),
                        kids == layouts(group.children@),
                        decreases_to!(self => group.children),
                        total + missing_in(kids.skip(index as int)) == missing_in(kids),
                        missing_in(kids) <= usize::MAX,
                    decreases group.children@.len() - index,
                {
                    proof {
                        let rest = kids.skip(index as int);
                        assert(rest[0] == group.children@[index as int]@);
                        assert(rest.subrange(1, rest.len() as int) =~= kids.skip(index + 1));
                    }
                    total += group.children[index].count_missing_images();
                    index += 1;
                }
                total
            },
        }
    }

    /// Whether every leaf has an image.
    pub fn is_filled(&self) -> (r: bool)
        ensures
            r == (self@.missing() == 0),
        decreases self,
    {
        proof {
            lemma_node_view(*self);
        }
        match self {
            SectionNode::Leaf(leaf) => leaf.image_path.is_some(),
            SectionNode::Group(group) => {
                let ghost kids = layouts(group.children@);
                let mut index: usize = 0;
                assert(kids.skip(0) =~= kids);
                while index < group.children.len()
                    invariant
                        0 <= index <= group.children@.len(),
                        kids == layouts(group.children@),
                        decreases_to!(self => group.children),
                        missing_in(kids.skip(index as int)) == missing_in(kids),
                        self@.missing() == missing_in(kids),
                    decreases group.children@.len() - index,
                {
                    proof {
                        let rest = kids.skip(index as int);
                        assert(rest[0] == group.children@[index as int]@);
                        assert(rest.subrange(1, rest.len() as int) =~= kids.skip(index + 1));
                    }
                    if !group.children[index].is_filled() {
                        return false;
                    }
                    index += 1;
                }
                true
            },
        }
    }

    /// Whether no arithmetic on pixels overflows while the cells are collected.
    pub fn can_compose(&self, rect: PixelRect) -> (r: bool)
        ensures
            r == self@.composable(rect),
        decreases self,
    {
        proof {
            lemma_node_view(*self);
        }
        match self {
            SectionNode::Leaf(_) => true,
            SectionNode::Group(group) => {
                let ghost kids = layouts(group.children@);
                let total: usize = group.children.len();
                if total as u128 > u32::MAX as u128 {
                    return false;
                }
                let count: u32 = total as u32;
                let mut index: u32 = 0;
                assert(kids.skip(0) =~= kids);
                while index < count
                    invariant
                        0 <= index <= count,
                        count == group.children@.len(),
                        kids == layouts(group.children@),
                        decreases_to!(self => group.children),
                        self@.composable(rect) == composable_in(
                            kids.skip(index as int),
                            index as int,
                            count as int,
                            group.axis,
                            rect,
                        ),
                    decreases count - index,
                {
                    let child = &group.children[index as usize];
                    proof {
                        let rest = kids.skip(index as int);
                        assert(rest[0] == group.children@[index as int]@);
                        assert(rest.subrange(1, rest.len() as int) =~= kids.skip(index + 1));
                    }
                    if !Self::part_fits(rect, group.axis, index, count) {
                        return false;
                    }
                    if !child.can_compose(Self::part(rect, group.axis, index, count)) {
                        return false;
                    }
                    if !child.is_filled() {
                        return true;
                    }
                    index += 1;
                }
                true
            },
        }
    }

    fn part_fits(rect: PixelRect, axis: SplitAxis, index: u32, count: u32) -> (r: bool)
        requires
            index < count,
        ensures
            r == part_fits(rect, axis, index as int, count as int),
    {
        let (origin, extent) = match axis {
            SplitAxis::Horizontal => (rect.y, rect.height),
            SplitAxis::Vertical => (rect.x, rect.width),
        };
        assert(extent * (index + 1) <= u32::MAX * (u32::MAX as int + 1)) by (nonlinear_arith)
            requires
                0 <= extent <= u32::MAX,
                0 <= index < u32::MAX,
        ;
        assert(0 <= extent * index <= extent * (index + 1)) by (nonlinear_arith)
            requires
                0 <= extent,
                0 <= index,
        ;
        let end: u64 = extent as u64 * (index as u64 + 1);
        if end > u32::MAX as u64 {
            return false;
        }
        let start: u64 = extent as u64 * index as u64 / count as u64;
        origin as u64 + start <= u32::MAX as u64
    }

    /// The part of a rectangle that the child at `index` of `count` fills.
    fn part(rect: PixelRect, axis: SplitAxis, index: u32, count: u32) -> (r: PixelRect)
        requires
            index < count,
            part_fits(rect, axis, index as int, count as int),
        ensures
            r == part_of(rect, axis, index as int, count as int),
    {
        match axis {
            SplitAxis::Horizontal => {
                proof {
                    lemma_part_bounds(rect.height as int, index as int, count as int);
                }
                let start = rect.height * index / count;
                let end = rect.height * (index + 1) / count;
                PixelRect { x: rect.x, y: rect.y + start, width: rect.width, height: end - start }
            },
            SplitAxis::Vertical => {
                proof {
                    lemma_part_bounds(rect.width as int, index as int, count as int);
                }
                let start = rect.width * index / count;
                let end = rect.width * (index + 1) / count;
                PixelRect { x: rect.x + start, y: rect.y, width: end - start, height: rect.height }
            },
        }
    }

    /// Appends the cells of the layout, from the first to the last leaf; stops at a leaf
    /// without an image.
    pub fn collect_composition_cells(
        &self,
        rect: PixelRect,
        keep_alpha: bool,
        cells: &mut Vec<CompositionCell>,
    ) -> (r: Result<(), MissingImage>)
        requires
            self@.composable(rect),
        ensures
            r is Ok <==> self@.missing() == 0,
            final(cells)@ == old(cells)@ + self@.cells(rect, keep_alpha),
        decreases self,
    {
        proof {
            lemma_node_view(*self);
        }
        match self {
            SectionNode::Leaf(leaf) => {
                match &leaf.image_path {
                    Some(image_path) => {
                        cells.push(
                            CompositionCell { rect, image_path: image_path.clone(), keep_alpha },
                        );
                        assert(cells@ =~= old(cells)@ + self@.cells(rect, keep_alpha));
                        Ok(())
                    },
                    None => {
                        assert(cells@ =~= old(cells)@ + self@.cells(rect, keep_alpha));
                        Err(MissingImage)
                    },
                }
            },
            SectionNode::Group(group) => {
                let ghost kids = layouts(group.children@);
                let count: u32 = group.children.len() as u32;
                let mut index: u32 = 0;
                assert(kids.skip(0) =~= kids);
                assert(cells@ + self@.cells(rect, keep_alpha) =~= old(cells)@ + self@.cells(
                    rect,
                    keep_alpha,
                ));
                while index < count
                    invariant
                        0 <= index <= count,
                        count == group.children@.len(),
                        kids == layouts(group.children@),
                        decreases_to!(self => group.children),
                        self@.missing() == missing_in(kids.skip(index as int)),
                        composable_in(
                            kids.skip(index as int),
                            index as int,
                            count as int,
                            group.axis,
                            rect,
                        ),
                        cells@ + cells_in(
                            kids.skip(index as int),
                            index as int,
                            count as int,
                            group.axis,
                            rect,
                            keep_alpha,
                        ) == old(cells)@ + self@.cells(rect, keep_alpha),
                    decreases count - index,
                {
                    let child = &group.children[index as usize];
                    let ghost rest = kids.skip(index as int);
                    let ghost before = cells@;
                    proof {
                        assert(rest[0] == group.children@[index as int]@);
                        assert(rest.subrange(1, rest.len() as int) =~= kids.skip(index + 1));
                    }
                    let child_rect = Self::part(rect, group.axis, index, count);
                    match child.collect_composition_cells(child_rect, keep_alpha, cells) {
                        Ok(()) => {},
                        Err(error) => {
                            return Err(error);
                        },
                    }
                    proof {
                        let more = cells_in(
                            kids.skip(index + 1),
                            index + 1,
                            count as int,
                            group.axis,
                            rect,
                            keep_alpha,
                        );
                        let own = child@.cells(child_rect, keep_alpha);
                        assert(before + (own + more) =~= (before + own) + more);
                    }
                    index += 1;
                }
                assert(cells@ + Seq::<CompositionCell>::empty() =~= cells@);
                Ok(())
            },
        }
    }
}

/// The edges of a part lie in order within the whole.
pub proof fn lemma_part_bounds(extent: int, index: int, count: int)
    requires
        0 <= extent,
        0 <= index < count,
    ensures
        0 <= extent * index / count <= extent * (index + 1) / count <= extent,
        0 <= extent * index <= extent * (index + 1),
{
    assert(0 <= extent * index <= extent * (index + 1) <= extent * count) by (nonlinear_arith)
        requires
            0 <= extent,
            0 <= index < count,
    ;
    vstd::arithmetic::div_mod::lemma_div_is_ordered(extent * index, extent * (index + 1), count);
    vstd::arithmetic::div_mod::lemma_div_is_ordered(extent * (index + 1), extent * count, count);
    vstd::arithmetic::div_mod::lemma_div_multiples_vanish(extent, count);
    assert(extent * count == count * extent) by (nonlinear_arith);
    vstd::arithmetic::div_mod::lemma_div_pos_is_pos(extent * index, count);
}

/// The part of a rectangle that the child at `index` of `count` equal children fills.
pub open spec fn part_of(rect: PixelRect, axis: SplitAxis, index: int, count: int) -> PixelRect {
    match axis {
        SplitAxis::Horizontal => {
            let start = rect.height * index / count;
            let end = rect.height * (index + 1) / count;
            PixelRect {
                x: rect.x,
                y: (rect.y + start) as u32,
                width: rect.width,
                height: (end - start) as u32,
            }
        },
        SplitAxis::Vertical => {
            let start = rect.width * index / count;
            let end = rect.width * (index + 1) / count;
            PixelRect {
                x: (rect.x + start) as u32,
                y: rect.y,
                width: (end - start) as u32,
                height: rect.height,
            }
        },
    }
}

/// Whether the arithmetic on one part stays within 32 bits.
pub open spec fn part_fits(rect: PixelRect, axis: SplitAxis, index: int, count: int) -> bool {
    match axis {
        SplitAxis::Horizontal => rect.height * (index + 1) <= u32::MAX && rect.y + rect.height
            * index / count <= u32::MAX,
        SplitAxis::Vertical => rect.width * (index + 1) <= u32::MAX && rect.x + rect.width * index
            / count <= u32::MAX,
    }
}

impl Layout {
    /// Whether the arithmetic on every part that is reached stays within 32 bits.
    pub open spec fn composable(self, rect: PixelRect) -> bool
        decreases self,
    {
        match self {
            Layout::Leaf { .. } => true,
            Layout::Group { axis, children, .. } => children.len() <= u32::MAX && composable_in(
                children,
                0,
                children.len() as int,
                axis,
                rect,
            ),
        }
    }

    /// The cells of the leaves in order, up to the first leaf without an image.
    pub open spec fn cells(self, rect: PixelRect, keep_alpha: bool) -> Seq<CompositionCell>
        decreases self,
    {
        match self {
            Layout::Leaf { image, .. } => match image {
                Some(image_path) => seq![CompositionCell { rect, image_path, keep_alpha }],
                None => Seq::empty(),
            },
            Layout::Group { axis, children, .. } => cells_in(
                children,
                0,
                children.len() as int,
                axis,
                rect,
                keep_alpha,
            ),
        }
    }
}

pub open spec fn composable_in(
    children: Seq<Layout>,
    index: int,
    count: int,
    axis: SplitAxis,
    rect: PixelRect,
) -> bool
    decreases children,
{
    children.len() > 0 ==> {
        &&& part_fits(rect, axis, index, count)
        &&& children[0].composable(part_of(rect, axis, index, count))
        &&& children[0].missing() == 0 ==> composable_in(
            children.subrange(1, children.len() as int),
            index + 1,
            count,
            axis,
            rect,
        )
    }
}

/// The cells of the children that stand at `index` and after it.
pub open spec fn cells_in(
    children: Seq<Layout>,
    index: int,
    count: int,
    axis: SplitAxis,
    rect: PixelRect,
    keep_alpha: bool,
) -> Seq<CompositionCell>
    decreases children,
{
    if children.len() == 0 {
        Seq::empty()
    } else {
        let own = children[0].cells(part_of(rect, axis, index, count), keep_alpha);
        if children[0].missing() == 0 {
            own + cells_in(
                children.subrange(1, children.len() as int),
                index + 1,
                count,
                axis,
                rect,
                keep_alpha,
            )
        } else {
            own
        }
    }
}

/// What is edited and how its replacement is laid out.
pub struct EditorState {
    pub asset_index: usize,
    pub entry_path: Option<String>,
    pub texture_index: usize,
    pub root: SectionNode,
    pub next_section_id: u64,
}

/// The rectangle of a whole texture.
pub open spec fn whole(width: u32, height: u32) -> PixelRect {
    PixelRect { x: 0, y: 0, width, height }
}

impl EditorState {
    /// The identifiers of the layout are distinct and in use, and every group is split.
    pub open spec fn well_formed(self) -> bool {
        well_formed(self.root@, self.next_section_id as int)
    }

    /// An editor whose layout is one section without an image.
    pub fn new(asset_index: usize, entry_path: Option<String>, texture_index: usize) -> (r:
        EditorState)
        ensures
            r.asset_index == asset_index,
            r.entry_path == entry_path,
            r.texture_index == texture_index,
            r.root@ == blank(1),
            r.next_section_id == 2,
            r.well_formed(),
    {
        EditorState {
            asset_index,
            entry_path,
            texture_index,
            root: SectionNode::empty_leaf(1),
            next_section_id: 2,
        }
    }

    /// Whether every section has its image.
    pub fn is_complete(&self) -> (r: bool)
        ensures
            r == (self.root@.missing() == 0),
    {
        self.root.is_filled()
    }

    /// Adds a section to the section `section_id`, where there is one.
    pub fn add_section(&mut self, section_id: u64, axis: SplitAxis)
        requires
            old(self).root@.added(section_id, axis, old(self).next_section_id as int) matches Some(
                (_, after),
            ) ==> after <= u64::MAX,
        ensures
            match old(self).root@.added(section_id, axis, old(self).next_section_id as int) {
                Some((layout, after)) => final(self).root@ == layout && final(self).next_section_id
                    == after,
                None => final(self).root@ == old(self).root@ && final(self).next_section_id == old(
                    self,
                ).next_section_id,
            },
            final(self).asset_index == old(self).asset_index,
            final(self).entry_path == old(self).entry_path,
            final(self).texture_index == old(self).texture_index,
            old(self).well_formed() ==> final(self).well_formed(),
    {
        proof {
            if self.well_formed() {
                adding_keeps_a_layout_well_formed(
                    self.root@,
                    section_id,
                    axis,
                    self.next_section_id as int,
                );
            }
        }
        self.root.add_section(section_id, axis, &mut self.next_section_id);
    }

    /// Takes the section `section_id` out of a group that is split along `axis`, where it is
    /// in one with a sibling.
    pub fn remove_section(&mut self, section_id: u64, axis: SplitAxis)
        ensures
            final(self).root@ == match old(self).root@.removed(section_id, axis) {
                Some(layout) => layout,
                None => old(self).root@,
            },
            *final(self) == (EditorState { root: final(self).root, ..*old(self) }),
            old(self).well_formed() ==> final(self).well_formed(),
    {
        proof {
            if self.well_formed() {
                removing_keeps_a_layout_well_formed(
                    self.root@,
                    section_id,
                    axis,
                    self.next_section_id as int,
                );
            }
        }
        self.root.remove_section(section_id, axis);
    }

    /// Puts an image into the leaf `leaf_id`, where there is one.
    pub fn set_leaf_image(&mut self, leaf_id: u64, image_path: PathBuf, texture: u64)
        ensures
            final(self).root@ == match old(self).root@.pictured(leaf_id, image_path, texture) {
                Some(layout) => layout,
                None => old(self).root@,
            },
            *final(self) == (EditorState { root: final(self).root, ..*old(self) }),
            old(self).well_formed() ==> final(self).well_formed(),
    {
        proof {
            if self.well_formed() {
                picturing_keeps_a_layout_well_formed(
                    self.root@,
                    leaf_id,
                    image_path,
                    texture,
                    self.next_section_id as int,
                );
            }
        }
        self.root.set_leaf_image(leaf_id, image_path, texture);
    }

    /// The cells of a composition of the given size.
    pub fn collect_composition_cells(&self, width: u32, height: u32, keep_alpha: bool) -> (r: Result<
        Vec<CompositionCell>,
        MissingImage,
    >)
        requires
            self.root@.composable(whole(width, height)),
        ensures
            r is Ok <==> self.root@.missing() == 0,
            r matches Ok(cells) ==> cells@ == self.root@.cells(whole(width, height), keep_alpha),
    {
        let mut cells: Vec<CompositionCell> = Vec::new();
        let rect = PixelRect { x: 0, y: 0, width, height };
        match self.root.collect_composition_cells(rect, keep_alpha, &mut cells) {
            Ok(()) => {
                assert(cells@ =~= self.root@.cells(whole(width, height), keep_alpha));
                Ok(cells)
            },
            Err(error) => Err(error),
        }
    }
}

/// Every identifier is below `next`, none occurs twice, and every group has at least two
/// children.
pub open spec fn well_formed(layout: Layout, next: int) -> bool {
    &&& layout.distinct()
    &&& layout.split()
    &&& forall|id: u64| #[trigger] layout.ids().contains(id) ==> id < next
}

}
