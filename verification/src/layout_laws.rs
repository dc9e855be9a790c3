//! What every operation on a layout keeps, and how its cells divide a texture.

use crate::sections::{
    added_in, blank, cells_in, child_at, composable_in, distinct_in, ids_in, inhabited_in,
    lemma_part_bounds, missing_in, part_of, pictured_in, regrouped, removed_in, section_in,
    sibling_place, siblings_in, split_in, well_formed, with_section_in, CompositionCell, Layout,
    PixelRect, SplitAxis,
};
use std::path::PathBuf;
use vstd::prelude::*;

verus! {

spec fn tail(children: Seq<Layout>) -> Seq<Layout> {
    children.subrange(1, children.len() as int)
}

proof fn lemma_cons(first: Layout, rest: Seq<Layout>)
    ensures
        tail(seq![first] + rest) == rest,
        (seq![first] + rest)[0] == first,
        ids_in(seq![first] + rest) == first.ids().union(ids_in(rest)),
        distinct_in(seq![first] + rest) == (first.distinct() && first.ids().disjoint(ids_in(rest))
            && distinct_in(rest)),
        split_in(seq![first] + rest) == (first.split() && split_in(rest)),
        missing_in(seq![first] + rest) == first.missing() + missing_in(rest),
        inhabited_in(seq![first] + rest) == (first.inhabited() && inhabited_in(rest)),
{
    assert(tail(seq![first] + rest) =~= rest);
}

proof fn lemma_uncons(children: Seq<Layout>)
    requires
        children.len() > 0,
    ensures
        children == seq![children[0]] + tail(children),
{
    assert(children =~= seq![children[0]] + tail(children));
}

proof fn lemma_insert(children: Seq<Layout>, at: int, new: Layout)
    requires
        0 <= at <= children.len(),
    ensures
        ids_in(children.insert(at, new)) == ids_in(children).union(new.ids()),
        distinct_in(children.insert(at, new)) == (distinct_in(children) && new.distinct()
            && new.ids().disjoint(ids_in(children))),
        split_in(children.insert(at, new)) == (split_in(children) && new.split()),
        missing_in(children.insert(at, new)) == missing_in(children) + new.missing(),
    decreases at,
{
    if at == 0 {
        assert(children.insert(0, new) =~= seq![new] + children);
        lemma_cons(new, children);
        assert(ids_in(children.insert(at, new)) =~= ids_in(children).union(new.ids()));
    } else {
        let rest = tail(children);
        let more = rest.insert(at - 1, new);
        lemma_insert(rest, at - 1, new);
        lemma_uncons(children);
        assert(children.insert(at, new) =~= seq![children[0]] + more);
        lemma_cons(children[0], more);
        lemma_cons(children[0], rest);
        assert(ids_in(children.insert(at, new)) =~= ids_in(children).union(new.ids()));
        if distinct_in(children.insert(at, new)) {
            assert forall|id: u64| new.ids().contains(id) implies !ids_in(children).contains(id) by {
                assert(ids_in(more).contains(id));
            }
        }
        if distinct_in(children) && new.distinct() && new.ids().disjoint(ids_in(children)) {
            assert(new.ids().disjoint(ids_in(rest)));
            assert(children[0].ids().disjoint(ids_in(more)));
        }
    }
}

proof fn lemma_member(children: Seq<Layout>, i: int)
    requires
        0 <= i < children.len(),
    ensures
        children[i].ids().subset_of(ids_in(children)),
        ids_in(children).contains(children[i].id()),
        distinct_in(children) ==> children[i].distinct(),
        split_in(children) ==> children[i].split(),
    decreases children.len(),
{
    lemma_own_id(children[i]);
    if i > 0 {
        lemma_member(tail(children), i - 1);
    }
}

proof fn lemma_own_id(layout: Layout)
    ensures
        layout.ids().contains(layout.id()),
{
}

proof fn lemma_remove(children: Seq<Layout>, i: int)
    requires
        0 <= i < children.len(),
    ensures
        ids_in(children.remove(i)).subset_of(ids_in(children)),
        distinct_in(children) ==> distinct_in(children.remove(i)),
        split_in(children) ==> split_in(children.remove(i)),
    decreases children.len(),
{
    let rest = tail(children);
    if i == 0 {
        assert(children.remove(0) =~= rest);
    } else {
        lemma_remove(rest, i - 1);
        assert(children.remove(i) =~= seq![children[0]] + rest.remove(i - 1));
        lemma_cons(children[0], rest.remove(i - 1));
        if distinct_in(children) {
            assert(children[0].ids().disjoint(ids_in(rest.remove(i - 1))));
        }
    }
}

proof fn lemma_child_at(children: Seq<Layout>, target: u64)
    ensures
        child_at(children, target) matches Some(i) ==> 0 <= i < children.len() && children[i].id()
            == target,
        child_at(children, target) is Some ==> ids_in(children).contains(target),
    decreases children.len(),
{
    if children.len() > 0 && children[0].id() != target {
        lemma_child_at(children.skip(1), target);
        assert(children.skip(1) =~= tail(children));
        if let Some(i) = child_at(children.skip(1), target) {
            assert(children[i + 1] == children.skip(1)[i]);
        }
    } else if children.len() > 0 {
        lemma_own_id(children[0]);
    }
}

/// The identifiers from `from` up to, and without, `to`.
pub open spec fn fresh(from: int, to: int) -> Set<u64> {
    Set::new(|id: u64| from <= id < to)
}

/// What a group is like once it has a blank child more.
proof fn lemma_grown(id: u64, axis: SplitAxis, children: Seq<Layout>, at: int, next: int)
    requires
        0 <= at <= children.len(),
        0 <= next < u64::MAX,
        forall|x: u64| #[trigger]
            (Layout::Group { id, axis, children }).ids().contains(x) ==> x < next,
    ensures
        ({
            let group = Layout::Group { id, axis, children };
            let grown = Layout::Group { id, axis, children: children.insert(at, blank(next as u64)) };
            &&& grown.ids() == group.ids().union(fresh(next, next + 1))
            &&& group.distinct() ==> grown.distinct()
            &&& group.split() ==> grown.split()
            &&& grown.missing() == group.missing() + 1
        }),
{
    let group = Layout::Group { id, axis, children };
    let grown = Layout::Group { id, axis, children: children.insert(at, blank(next as u64)) };
    lemma_insert(children, at, blank(next as u64));
    assert(grown.ids() =~= group.ids().union(fresh(next, next + 1)));
    assert(group.ids().contains(id));
    assert forall|x: u64| blank(next as u64).ids().contains(x) implies !ids_in(children).contains(
        x,
    ) by {
        if ids_in(children).contains(x) {
            assert(group.ids().contains(x));
        }
    }
}

proof fn lemma_added(layout: Layout, target: u64, axis: SplitAxis, next: int)
    requires
        0 <= next,
        layout.added(target, axis, next) matches Some((_, after)) ==> after <= u64::MAX,
        forall|id: u64| #[trigger] layout.ids().contains(id) ==> id < next,
    ensures
        layout.added(target, axis, next) matches Some((changed, after)) ==> {
            &&& next < after
            &&& changed.ids() == layout.ids().union(fresh(next, after))
            &&& layout.distinct() ==> changed.distinct()
            &&& layout.split() ==> changed.split()
            &&& changed.missing() == layout.missing() + 1
        },
    decreases layout,
{
    if let Some((changed, after)) = layout.added(target, axis, next) {
        if layout.id() == target {
            match layout {
                Layout::Group { id, axis: own, children } if own == axis => {
                    assert(children.push(blank(next as u64)) =~= children.insert(
                        children.len() as int,
                        blank(next as u64),
                    ));
                    lemma_grown(id, axis, children, children.len() as int, next);
                },
                _ => {
                    let none = Seq::<Layout>::empty();
                    let second = blank((next + 1) as u64);
                    let children = seq![layout, second];
                    assert(children =~= seq![layout] + (seq![second] + none));
                    lemma_cons(second, none);
                    lemma_cons(layout, seq![second] + none);
                    assert(changed.ids() =~= layout.ids().union(fresh(next, after)));
                    if layout.distinct() {
                        assert(layout.ids().disjoint(ids_in(seq![second] + none)));
                    }
                },
            }
        } else if let Layout::Group { id, axis: own, children } = layout {
            if own == axis && sibling_place(children, target, axis) is Some {
                lemma_child_at(children, target);
                lemma_grown(id, axis, children, sibling_place(children, target, axis)->0, next);
            } else {
                assert forall|x: u64| #[trigger] ids_in(children).contains(x) implies x < next by {
                    assert(layout.ids().contains(x));
                }
                lemma_added_in(children, target, axis, next);
                assert(layout.ids().contains(id));
                assert(changed.ids() =~= layout.ids().union(fresh(next, after)));
            }
        }
    }
}

proof fn lemma_added_in(children: Seq<Layout>, target: u64, axis: SplitAxis, next: int)
    requires
        0 <= next,
        added_in(children, target, axis, next) matches Some((_, after)) ==> after <= u64::MAX,
        forall|id: u64| #[trigger] ids_in(children).contains(id) ==> id < next,
    ensures
        added_in(children, target, axis, next) matches Some((changed, after)) ==> {
            &&& next < after
            &&& changed.len() == children.len()
            &&& ids_in(changed) == ids_in(children).union(fresh(next, after))
            &&& distinct_in(children) ==> distinct_in(changed)
            &&& split_in(children) ==> split_in(changed)
            &&& missing_in(changed) == missing_in(children) + 1
        },
    decreases children,
{
    if children.len() > 0 {
        let rest = children.subrange(1, children.len() as int);
        lemma_uncons(children);
        lemma_cons(children[0], rest);
        assert forall|x: u64| #[trigger] children[0].ids().contains(x) implies x < next by {
            assert(ids_in(children).contains(x));
        }
        assert forall|x: u64| #[trigger] ids_in(rest).contains(x) implies x < next by {
            assert(ids_in(children).contains(x));
        }
        match children[0].added(target, axis, next) {
            Some((changed, after)) => {
                lemma_added(children[0], target, axis, next);
                lemma_cons(changed, rest);
                assert(ids_in(seq![changed] + rest) =~= ids_in(children).union(fresh(next, after)));
                if distinct_in(children) {
                    assert(changed.ids().disjoint(ids_in(rest)));
                }
            },
            None => {
                lemma_added_in(rest, target, axis, next);
                if let Some((changed, after)) = added_in(rest, target, axis, next) {
                    lemma_cons(children[0], changed);
                    assert(ids_in(seq![children[0]] + changed) =~= ids_in(children).union(
                        fresh(next, after),
                    ));
                    if distinct_in(children) {
                        assert(children[0].ids().disjoint(ids_in(changed)));
                    }
                }
            },
        }
    }
}

/// Adding a section keeps a layout well formed: the new sections get identifiers that were
/// not in use, every identifier that was in use stays, and one more section lacks an image.
pub proof fn adding_keeps_a_layout_well_formed(
    layout: Layout,
    target: u64,
    axis: SplitAxis,
    next: int,
)
    requires
        0 <= next,
        well_formed(layout, next),
        layout.added(target, axis, next) matches Some((_, after)) ==> after <= u64::MAX,
    ensures
        layout.added(target, axis, next) matches Some((changed, after)) ==> well_formed(
            changed,
            after,
        ) && changed.ids() == layout.ids().union(fresh(next, after)) && changed.missing()
            == layout.missing() + 1,
{
    lemma_added(layout, target, axis, next);
    if let Some((changed, after)) = layout.added(target, axis, next) {
        assert forall|id: u64| #[trigger] changed.ids().contains(id) implies id < after by {
            if layout.ids().contains(id) {
            } else {
                assert(fresh(next, after).contains(id));
            }
        }
    }
}

proof fn lemma_removed(layout: Layout, target: u64, axis: SplitAxis)
    ensures
        layout.removed(target, axis) matches Some(changed) ==> {
            &&& layout.ids().contains(target)
            &&& changed.ids().subset_of(layout.ids())
            &&& layout.distinct() ==> changed.distinct()
            &&& layout.split() ==> changed.split()
        },
    decreases layout,
{
    if let Some(changed) = layout.removed(target, axis) {
        if let Layout::Group { id, axis: own, children } = layout {
            let left = if own == axis && child_at(children, target) is Some {
                children.remove(child_at(children, target)->0)
            } else {
                removed_in(children, target, axis)->0
            };
            if own == axis && child_at(children, target) is Some {
                lemma_child_at(children, target);
                lemma_remove(children, child_at(children, target)->0);
            } else {
                lemma_removed_in(children, target, axis);
            }
            assert(changed == regrouped(id, own, left));
            if left.len() == 1 {
                lemma_member(left, 0);
            }
            if own == axis && child_at(children, target) is Some && children.len() == 2 {
                assert(left.len() == 1);
            }
        }
    }
}

proof fn lemma_removed_in(children: Seq<Layout>, target: u64, axis: SplitAxis)
    ensures
        removed_in(children, target, axis) matches Some(changed) ==> {
            &&& ids_in(children).contains(target)
            &&& changed.len() == children.len()
            &&& ids_in(changed).subset_of(ids_in(children))
            &&& distinct_in(children) ==> distinct_in(changed)
            &&& split_in(children) ==> split_in(changed)
        },
    decreases children,
{
    if children.len() > 0 {
        let rest = children.subrange(1, children.len() as int);
        lemma_uncons(children);
        lemma_cons(children[0], rest);
        lemma_removed(children[0], target, axis);
        lemma_removed_in(rest, target, axis);
        match children[0].removed(target, axis) {
            Some(changed) => {
                lemma_cons(changed, rest);
                if distinct_in(children) {
                    assert(changed.ids().disjoint(ids_in(rest)));
                }
            },
            None => {
                if let Some(changed) = removed_in(rest, target, axis) {
                    lemma_cons(children[0], changed);
                    if distinct_in(children) {
                        assert(children[0].ids().disjoint(ids_in(changed)));
                    }
                }
            },
        }
    }
}

/// Removing a section keeps a layout well formed, and brings no identifier in.
pub proof fn removing_keeps_a_layout_well_formed(
    layout: Layout,
    target: u64,
    axis: SplitAxis,
    next: int,
)
    requires
        well_formed(layout, next),
    ensures
        layout.removed(target, axis) matches Some(changed) ==> well_formed(changed, next)
            && changed.ids().subset_of(layout.ids()),
{
    lemma_removed(layout, target, axis);
}

proof fn lemma_pictured(layout: Layout, target: u64, path: PathBuf, preview: u64)
    ensures
        layout.pictured(target, path, preview) matches Some(changed) ==> {
            &&& changed.ids() == layout.ids()
            &&& layout.distinct() ==> changed.distinct()
            &&& layout.split() ==> changed.split()
            &&& changed.missing() <= layout.missing()
        },
    decreases layout,
{
    if let Layout::Group { id, axis, children } = layout {
        lemma_pictured_in(children, target, path, preview);
    }
}

proof fn lemma_pictured_in(children: Seq<Layout>, target: u64, path: PathBuf, preview: u64)
    ensures
        pictured_in(children, target, path, preview) matches Some(changed) ==> {
            &&& changed.len() == children.len()
            &&& ids_in(changed) == ids_in(children)
            &&& distinct_in(children) ==> distinct_in(changed)
            &&& split_in(children) ==> split_in(changed)
            &&& missing_in(changed) <= missing_in(children)
        },
    decreases children,
{
    if children.len() > 0 {
        let rest = children.subrange(1, children.len() as int);
        lemma_uncons(children);
        lemma_cons(children[0], rest);
        lemma_pictured(children[0], target, path, preview);
        lemma_pictured_in(rest, target, path, preview);
        match children[0].pictured(target, path, preview) {
            Some(changed) => {
                lemma_cons(changed, rest);
            },
            None => {
                if let Some(changed) = pictured_in(rest, target, path, preview) {
                    lemma_cons(children[0], changed);
                }
            },
        }
    }
}

/// Putting an image into a leaf keeps the identifiers and the groups of a layout, and leaves
/// no more sections without an image than before.
pub proof fn picturing_keeps_a_layout_well_formed(
    layout: Layout,
    target: u64,
    path: PathBuf,
    preview: u64,
    next: int,
)
    requires
        well_formed(layout, next),
    ensures
        layout.pictured(target, path, preview) matches Some(changed) ==> well_formed(changed, next)
            && changed.ids() == layout.ids() && changed.missing() <= layout.missing(),
{
    lemma_pictured(layout, target, path, preview);
}

proof fn lemma_kept(layout: Layout, target: u64, new: Layout)
    requires
        !layout.ids().contains(target),
    ensures
        layout.with_section(target, new) == layout,
    decreases layout,
{
    lemma_own_id(layout);
    if let Layout::Group { children, .. } = layout {
        lemma_kept_in(children, target, new);
    }
}

proof fn lemma_kept_in(children: Seq<Layout>, target: u64, new: Layout)
    requires
        !ids_in(children).contains(target),
    ensures
        with_section_in(children, target, new) == children,
    decreases children,
{
    if children.len() > 0 {
        let rest = children.subrange(1, children.len() as int);
        lemma_uncons(children);
        lemma_kept(children[0], target, new);
        lemma_kept_in(rest, target, new);
    }
}

/// A group with one more blank child behind its children.
pub open spec fn longer(group: Layout, new: u64) -> Layout {
    match group {
        Layout::Group { id, axis, children } => Layout::Group {
            id,
            axis,
            children: children.push(blank(new)),
        },
        leaf => leaf,
    }
}

proof fn lemma_extends(layout: Layout, target: u64, axis: SplitAxis, next: int)
    requires
        layout.distinct(),
        layout.section(target) matches Some(group) && group.runs_along(axis),
    ensures
        layout.added(target, axis, next) == Some(
            (
                layout.with_section(target, longer(layout.section(target)->0, next as u64)),
                next + 1,
            ),
        ),
    decreases layout,
{
    if layout.id() != target {
        if let Layout::Group { axis: own, children, .. } = layout {
            if child_at(children, target) is Some {
                lemma_child_section(children, target, blank(0));
            }
            lemma_extends_in(children, target, axis, next);
        }
    }
}

proof fn lemma_extends_in(children: Seq<Layout>, target: u64, axis: SplitAxis, next: int)
    requires
        distinct_in(children),
        section_in(children, target) matches Some(group) && group.runs_along(axis),
    ensures
        added_in(children, target, axis, next) == Some(
            (
                with_section_in(
                    children,
                    target,
                    longer(section_in(children, target)->0, next as u64),
                ),
                next + 1,
            ),
        ),
    decreases children,
{
    if children.len() > 0 {
        let rest = children.subrange(1, children.len() as int);
        let new = longer(section_in(children, target)->0, next as u64);
        lemma_uncons(children);
        lemma_cons(children[0], rest);
        lemma_absent(children[0], target, axis, next);
        lemma_absent_in(rest, target, axis, next);
        if children[0].section(target) is Some {
            assert(!ids_in(rest).contains(target));
            lemma_extends(children[0], target, axis, next);
            lemma_kept_in(rest, target, new);
        } else {
            lemma_kept(children[0], target, new);
            lemma_extends_in(rest, target, axis, next);
        }
    }
}

/// Adding along its own axis to a group, wherever it lies, keeps its children in place and puts one
/// blank section behind them, so that all of them stay siblings. Every other section stays.
pub proof fn adding_along_its_axis_extends_a_group(
    layout: Layout,
    target: u64,
    axis: SplitAxis,
    next: int,
)
    requires
        well_formed(layout, next),
        layout.section(target) matches Some(group) && group.runs_along(axis),
    ensures
        layout.added(target, axis, next) == Some(
            (
                layout.with_section(target, longer(layout.section(target)->0, next as u64)),
                next + 1,
            ),
        ),
{
    lemma_extends(layout, target, axis, next);
}

proof fn lemma_removed_absent(layout: Layout, target: u64, axis: SplitAxis)
    requires
        !layout.ids().contains(target),
    ensures
        layout.removed(target, axis) is None,
{
    lemma_removed(layout, target, axis);
}

proof fn lemma_child_at_first(children: Seq<Layout>, target: u64, i: int)
    requires
        0 <= i < children.len(),
        children[i].id() == target,
        forall|j: int| 0 <= j < i ==> (#[trigger] children[j]).id() != target,
    ensures
        child_at(children, target) == Some(i),
    decreases i,
{
    if i > 0 {
        let rest = children.skip(1);
        assert(rest[i - 1] == children[i]);
        assert forall|j: int| 0 <= j < i - 1 implies (#[trigger] rest[j]).id() != target by {
            assert(rest[j] == children[j + 1]);
        }
        assert(children[0].id() != target);
        lemma_child_at_first(rest, target, i - 1);
    }
}

proof fn lemma_child_at_absent(children: Seq<Layout>, target: u64)
    requires
        forall|j: int| 0 <= j < children.len() ==> (#[trigger] children[j]).id() != target,
    ensures
        child_at(children, target) is None,
{
    lemma_child_at(children, target);
}

proof fn lemma_grown_back(id: u64, axis: SplitAxis, children: Seq<Layout>, at: int, next: int)
    requires
        0 <= at <= children.len(),
        0 <= next < u64::MAX,
        children.len() >= 2,
        forall|x: u64| #[trigger]
            (Layout::Group { id, axis, children }).ids().contains(x) ==> x < next,
    ensures
        (Layout::Group { id, axis, children: children.insert(at, blank(next as u64)) }).removed(
            next as u64,
            axis,
        ) == Some(Layout::Group { id, axis, children }),
{
    let group = Layout::Group { id, axis, children };
    let more = children.insert(at, blank(next as u64));
    assert forall|j: int| 0 <= j < at implies (#[trigger] more[j]).id() != next as u64 by {
        assert(more[j] == children[j]);
        lemma_member(children, j);
        assert(group.ids().contains(children[j].id()));
    }
    lemma_child_at_first(more, next as u64, at);
    assert(more.remove(at) =~= children);
}

proof fn lemma_add_remove(layout: Layout, target: u64, axis: SplitAxis, next: int)
    requires
        0 <= next,
        layout.split(),
        forall|id: u64| #[trigger] layout.ids().contains(id) ==> id < next,
        layout.added(target, axis, next) matches Some((_, after)) ==> after <= u64::MAX,
    ensures
        layout.added(target, axis, next) matches Some((changed, after)) ==> changed.removed(
            (after - 1) as u64,
            axis,
        ) == Some(layout),
    decreases layout,
{
    if let Some((changed, after)) = layout.added(target, axis, next) {
        let leaf = (after - 1) as u64;
        if layout.id() == target {
            match layout {
                Layout::Group { id, axis: own, children } if own == axis => {
                    assert(children.push(blank(leaf)) =~= children.insert(
                        children.len() as int,
                        blank(leaf),
                    ));
                    lemma_grown_back(id, axis, children, children.len() as int, next);
                },
                _ => {
                    lemma_own_id(layout);
                    let children = seq![layout, blank(leaf)];
                    assert forall|j: int| 0 <= j < 1 implies (#[trigger] children[j]).id()
                        != leaf by {
                        assert(children[j] == layout);
                    }
                    lemma_child_at_first(children, leaf, 1);
                    assert(children.remove(1) =~= seq![layout]);
                },
            }
        } else if let Layout::Group { id, axis: own, children } = layout {
            if own == axis && sibling_place(children, target, axis) is Some {
                lemma_child_at(children, target);
                lemma_grown_back(
                    id,
                    axis,
                    children,
                    sibling_place(children, target, axis)->0,
                    next,
                );
            } else {
                assert forall|x: u64| #[trigger] ids_in(children).contains(x) implies x < next by {
                    assert(layout.ids().contains(x));
                }
                lemma_add_remove_in(children, target, axis, next);
                let (kids, _) = added_in(children, target, axis, next)->0;
                lemma_child_at_absent(kids, leaf);
            }
        }
    }
}

proof fn lemma_add_remove_in(children: Seq<Layout>, target: u64, axis: SplitAxis, next: int)
    requires
        0 <= next,
        split_in(children),
        forall|id: u64| #[trigger] ids_in(children).contains(id) ==> id < next,
        added_in(children, target, axis, next) matches Some((_, after)) ==> after <= u64::MAX,
    ensures
        added_in(children, target, axis, next) matches Some((changed, after)) ==> {
            &&& changed.len() == children.len()
            &&& removed_in(changed, (after - 1) as u64, axis) == Some(children)
            &&& forall|j: int|
                0 <= j < changed.len() ==> (#[trigger] changed[j]).id() != (after - 1) as u64
        },
    decreases children,
{
    if children.len() > 0 {
        let rest = children.subrange(1, children.len() as int);
        lemma_uncons(children);
        lemma_cons(children[0], rest);
        assert forall|x: u64| #[trigger] children[0].ids().contains(x) implies x < next by {
            assert(ids_in(children).contains(x));
        }
        assert forall|x: u64| #[trigger] ids_in(rest).contains(x) implies x < next by {
            assert(ids_in(children).contains(x));
        }
        match children[0].added(target, axis, next) {
            Some((changed, after)) => {
                let leaf = (after - 1) as u64;
                lemma_add_remove(children[0], target, axis, next);
                lemma_cons(changed, rest);
                let all = seq![changed] + rest;
                assert(all.subrange(1, all.len() as int) =~= rest);
                lemma_own_id(children[0]);
                lemma_added(children[0], target, axis, next);
                assert forall|j: int| 0 <= j < all.len() implies (#[trigger] all[j]).id()
                    != leaf by {
                    if j > 0 {
                        assert(all[j] == rest[j - 1]);
                        lemma_member(rest, j - 1);
                    }
                }
            },
            None => {
                lemma_add_remove_in(rest, target, axis, next);
                if let Some((changed, after)) = added_in(rest, target, axis, next) {
                    let leaf = (after - 1) as u64;
                    let all = seq![children[0]] + changed;
                    lemma_added_in(rest, target, axis, next);
                    assert(all.subrange(1, all.len() as int) =~= changed);
                    lemma_own_id(children[0]);
                    assert(!children[0].ids().contains(leaf));
                    lemma_removed_absent(children[0], leaf, axis);
                    assert forall|j: int| 0 <= j < all.len() implies (#[trigger] all[j]).id()
                        != leaf by {
                        if j > 0 {
                            assert(all[j] == changed[j - 1]);
                        }
                    }
                }
            },
        }
    }
}

/// Removing the section that was just added, along the axis of the addition, gives the layout
/// back as it was.
pub proof fn removing_undoes_adding(layout: Layout, target: u64, axis: SplitAxis, next: int)
    requires
        0 <= next,
        well_formed(layout, next),
        layout.added(target, axis, next) matches Some((_, after)) ==> after <= u64::MAX,
    ensures
        layout.added(target, axis, next) matches Some((changed, after)) ==> changed.removed(
            (after - 1) as u64,
            axis,
        ) == Some(layout),
{
    lemma_add_remove(layout, target, axis, next);
}

proof fn lemma_absent(layout: Layout, target: u64, axis: SplitAxis, next: int)
    ensures
        layout.section(target) is Some <==> layout.ids().contains(target),
        !layout.ids().contains(target) ==> layout.siblings(target, axis) is None && layout.added(
            target,
            axis,
            next,
        ) is None,
    decreases layout,
{
    lemma_own_id(layout);
    if let Layout::Group { children, .. } = layout {
        lemma_absent_in(children, target, axis, next);
        lemma_child_at(children, target);
    }
}

proof fn lemma_absent_in(children: Seq<Layout>, target: u64, axis: SplitAxis, next: int)
    ensures
        section_in(children, target) is Some <==> ids_in(children).contains(target),
        !ids_in(children).contains(target) ==> siblings_in(children, target, axis) is None
            && added_in(children, target, axis, next) is None,
    decreases children,
{
    if children.len() > 0 {
        lemma_absent(children[0], target, axis, next);
        lemma_absent_in(children.subrange(1, children.len() as int), target, axis, next);
    }
}

proof fn lemma_no_child_at(children: Seq<Layout>, target: u64, j: int)
    requires
        child_at(children, target) is None,
        0 <= j < children.len(),
    ensures
        children[j].id() != target,
    decreases children.len(),
{
    if j > 0 {
        lemma_no_child_at(children.skip(1), target, j - 1);
        assert(children.skip(1)[j - 1] == children[j]);
    }
}

/// A child is found as a section, also with a child more behind it.
proof fn lemma_child_section(children: Seq<Layout>, target: u64, new: Layout)
    requires
        distinct_in(children),
        child_at(children, target) is Some,
    ensures
        ({
            let i = child_at(children, target)->0;
            let more = children.insert(i + 1, new);
            &&& 0 <= i < children.len()
            &&& section_in(children, target) == Some(children[i])
            &&& section_in(more, target) == Some(children[i])
            &&& child_at(more, target) == Some(i)
        }),
    decreases children.len(),
{
    let rest = tail(children);
    lemma_child_at(children, target);
    lemma_uncons(children);
    lemma_cons(children[0], rest);
    let i = child_at(children, target)->0;
    let more = children.insert(i + 1, new);
    if children[0].id() == target {
        assert(children[0].section(target) == Some(children[0]));
        assert(more[0] == children[0]);
    } else {
        assert(children.skip(1) =~= rest);
        lemma_child_section(rest, target, new);
        lemma_child_at(rest, target);
        let k = child_at(rest, target)->0;
        assert(i == k + 1);
        assert(children[i] == rest[k]);
        assert(!children[0].ids().contains(target));
        lemma_absent(children[0], target, SplitAxis::Horizontal, 0);
        assert(section_in(children, target) == section_in(rest, target));
        assert(more[0] == children[0]);
        assert(more.subrange(1, more.len() as int) =~= rest.insert(i, new));
        assert(more.skip(1) =~= rest.insert(i, new));
    }
}

/// The siblings of a section after one more was added to it.
pub open spec fn with_sibling(siblings: Seq<Layout>, target: u64, new: Layout) -> Seq<Layout> {
    siblings.insert(child_at(siblings, target)->0 + 1, new)
}

/// Whether an addition along an axis gives a section a sibling: where it is not itself split along
/// that axis.
pub open spec fn gains_a_sibling(section: Option<Layout>, axis: SplitAxis) -> bool {
    section matches Some(own) && !own.runs_along(axis)
}

/// The siblings of a section after an addition to it, and the next free identifier.
pub open spec fn siblings_after(
    section: Layout,
    siblings: Option<Seq<Layout>>,
    target: u64,
    next: int,
) -> (Seq<Layout>, int) {
    match siblings {
        Some(kids) => (with_sibling(kids, target, blank(next as u64)), next + 1),
        None => (seq![section, blank((next + 1) as u64)], next + 2),
    }
}

proof fn lemma_siblings(layout: Layout, target: u64, axis: SplitAxis, next: int)
    requires
        0 <= next,
        layout.added(target, axis, next) matches Some((_, after)) ==> after <= u64::MAX,
        layout.distinct(),
        forall|id: u64| #[trigger] layout.ids().contains(id) ==> id < next,
        gains_a_sibling(layout.section(target), axis),
    ensures
        ({
            let section = layout.section(target)->0;
            let (siblings, free) = siblings_after(
                section,
                layout.siblings(target, axis),
                target,
                next,
            );
            &&& layout.added(target, axis, next) matches Some((changed, after))
            &&& after == free
            &&& changed.section(target) == Some(section)
            &&& changed.siblings(target, axis) == Some(siblings)
            &&& changed.id() == target ==> layout.id() == target
        }),
    decreases layout,
{
    lemma_absent(layout, target, axis, next);
    if layout.id() == target {
        if let Layout::Group { children, .. } = layout {
            lemma_child_at(children, target);
            lemma_absent_in(children, target, axis, next);
        }
        let both = seq![layout, blank((next + 1) as u64)];
        assert(both[0].id() == target);
    } else if let Layout::Group { id, axis: own, children } = layout {
        if own == axis && child_at(children, target) is Some {
            lemma_child_section(children, target, blank(next as u64));
        } else {
            assert forall|x: u64| #[trigger] ids_in(children).contains(x) implies x < next by {
                assert(layout.ids().contains(x));
            }
            lemma_siblings_in(children, target, axis, next);
            let (kids, _) = added_in(children, target, axis, next)->0;
            if own == axis {
                assert forall|j: int| 0 <= j < kids.len() implies (#[trigger] kids[j]).id()
                    != target by {
                    lemma_no_child_at(children, target, j);
                }
                lemma_child_at_absent(kids, target);
            }
        }
    }
}

proof fn lemma_siblings_in(children: Seq<Layout>, target: u64, axis: SplitAxis, next: int)
    requires
        0 <= next,
        added_in(children, target, axis, next) matches Some((_, after)) ==> after <= u64::MAX,
        distinct_in(children),
        forall|id: u64| #[trigger] ids_in(children).contains(id) ==> id < next,
        gains_a_sibling(section_in(children, target), axis),
    ensures
        ({
            let section = section_in(children, target)->0;
            let (siblings, free) = siblings_after(
                section,
                siblings_in(children, target, axis),
                target,
                next,
            );
            &&& added_in(children, target, axis, next) matches Some((changed, after))
            &&& after == free
            &&& changed.len() == children.len()
            &&& section_in(changed, target) == Some(section)
            &&& siblings_in(changed, target, axis) == Some(siblings)
            &&& forall|j: int|
                0 <= j < children.len() && (#[trigger] changed[j]).id() == target
                    ==> children[j].id() == target
        }),
    decreases children,
{
    if children.len() > 0 {
        let rest = children.subrange(1, children.len() as int);
        lemma_uncons(children);
        lemma_cons(children[0], rest);
        lemma_absent(children[0], target, axis, next);
        lemma_absent_in(rest, target, axis, next);
        assert forall|x: u64| #[trigger] children[0].ids().contains(x) implies x < next by {
            assert(ids_in(children).contains(x));
        }
        assert forall|x: u64| #[trigger] ids_in(rest).contains(x) implies x < next by {
            assert(ids_in(children).contains(x));
        }
        if children[0].section(target) is Some {
            assert(!ids_in(rest).contains(target));
            lemma_siblings(children[0], target, axis, next);
            let (changed, _) = children[0].added(target, axis, next)->0;
            let all = seq![changed] + rest;
            assert(all.subrange(1, all.len() as int) =~= rest);
        } else {
            lemma_siblings_in(rest, target, axis, next);
            let (changed, _) = added_in(rest, target, axis, next)->0;
            let all = seq![children[0]] + changed;
            assert(all.subrange(1, all.len() as int) =~= changed);
            assert forall|j: int|
                0 <= j < children.len() && (#[trigger] all[j]).id() == target implies children[j].id()
                == target by {
                if j > 0 {
                    assert(all[j] == changed[j - 1]);
                    assert(children[j] == rest[j - 1]);
                }
            }
        }
    }
}

/// Adding along an axis to a section that is not itself split along it gives the section a sibling
/// right behind it: in the group along that axis that holds it, or in a new group of the two where
/// there is none. The section stays as it was.
pub proof fn an_addition_becomes_a_sibling(layout: Layout, target: u64, axis: SplitAxis, next: int)
    requires
        0 <= next,
        layout.added(target, axis, next) matches Some((_, after)) ==> after <= u64::MAX,
        well_formed(layout, next),
        gains_a_sibling(layout.section(target), axis),
    ensures
        ({
            let section = layout.section(target)->0;
            let (siblings, free) = siblings_after(
                section,
                layout.siblings(target, axis),
                target,
                next,
            );
            &&& layout.added(target, axis, next) matches Some((changed, after))
            &&& after == free
            &&& changed.section(target) == Some(section)
            &&& changed.siblings(target, axis) == Some(siblings)
        }),
{
    lemma_siblings(layout, target, axis, next);
}

/// Repeated additions to one section along one axis make siblings and no nested groups: after the
/// first of them, each adds one section to the same group.
pub proof fn repeated_additions_give_siblings(
    layout: Layout,
    target: u64,
    axis: SplitAxis,
    next: int,
)
    requires
        0 <= next,
        layout.added(target, axis, next) matches Some((once, free)) ==> {
            &&& free <= u64::MAX
            &&& once.added(target, axis, free) matches Some((_, after)) ==> after <= u64::MAX
        },
        well_formed(layout, next),
        gains_a_sibling(layout.section(target), axis),
    ensures
        ({
            let (once, free) = layout.added(target, axis, next)->0;
            let siblings = once.siblings(target, axis)->0;
            &&& layout.added(target, axis, next) is Some
            &&& once.siblings(target, axis) is Some
            &&& once.added(target, axis, free) matches Some((twice, after))
            &&& after == free + 1
            &&& twice.section(target) == layout.section(target)
            &&& twice.siblings(target, axis) == Some(
                with_sibling(siblings, target, blank(free as u64)),
            )
            &&& layout.siblings(target, axis) is None ==> twice.siblings(target, axis) == Some(
                seq![layout.section(target)->0, blank(free as u64), blank((free - 1) as u64)],
            )
        }),
{
    lemma_siblings(layout, target, axis, next);
    let (once, free) = layout.added(target, axis, next)->0;
    adding_keeps_a_layout_well_formed(layout, target, axis, next);
    lemma_siblings(once, target, axis, free);
    if layout.siblings(target, axis) is None {
        let section = layout.section(target)->0;
        let pair = seq![section, blank((free - 1) as u64)];
        lemma_section_id(layout, target);
        assert(pair[0].id() == target);
        assert(child_at(pair, target) == Some(0int));
        assert(pair.insert(1, blank(free as u64)) =~= seq![
            section,
            blank(free as u64),
            blank((free - 1) as u64),
        ]);
    }
}

proof fn lemma_section_id(layout: Layout, target: u64)
    ensures
        layout.section(target) matches Some(section) ==> section.id() == target,
    decreases layout,
{
    if let Layout::Group { children, .. } = layout {
        lemma_section_id_in(children, target);
    }
}

proof fn lemma_section_id_in(children: Seq<Layout>, target: u64)
    ensures
        section_in(children, target) matches Some(section) ==> section.id() == target,
    decreases children,
{
    if children.len() > 0 {
        lemma_section_id(children[0], target);
        lemma_section_id_in(children.subrange(1, children.len() as int), target);
    }
}

/// Whether a pixel lies in a rectangle.
pub open spec fn inside(rect: PixelRect, x: int, y: int) -> bool {
    rect.x <= x < rect.x + rect.width && rect.y <= y < rect.y + rect.height
}

/// How many cells hold a pixel.
pub open spec fn hits(cells: Seq<CompositionCell>, x: int, y: int) -> nat
    decreases cells.len(),
{
    if cells.len() == 0 {
        0
    } else {
        hits(cells.drop_last(), x, y) + if inside(cells.last().rect, x, y) {
            1nat
        } else {
            0nat
        }
    }
}

proof fn lemma_hits_concat(a: Seq<CompositionCell>, b: Seq<CompositionCell>, x: int, y: int)
    ensures
        hits(a + b, x, y) == hits(a, x, y) + hits(b, x, y),
    decreases b.len(),
{
    if b.len() == 0 {
        assert(a + b =~= a);
    } else {
        lemma_hits_concat(a, b.drop_last(), x, y);
        assert((a + b).drop_last() =~= a + b.drop_last());
        assert((a + b).last() == b.last());
    }
}

/// Where the part at `index` begins.
spec fn edge(extent: int, index: int, count: int) -> int {
    extent * index / count
}

proof fn lemma_edges(extent: int, index: int, count: int)
    requires
        0 <= extent,
        0 <= index < count,
    ensures
        0 <= edge(extent, index, count) <= edge(extent, index + 1, count) <= extent,
{
    assert(0 <= extent * index <= extent * (index + 1) <= extent * count) by (nonlinear_arith)
        requires
            0 <= extent,
            0 <= index < count,
    ;
    vstd::arithmetic::div_mod::lemma_div_is_ordered(extent * index, extent * (index + 1), count);
    vstd::arithmetic::div_mod::lemma_div_is_ordered(extent * (index + 1), extent * count, count);
    vstd::arithmetic::div_mod::lemma_div_multiples_vanish(extent, count);
    assert(extent * count == count * extent) by (nonlinear_arith);
    vstd::arithmetic::div_mod::lemma_div_pos_is_pos(extent * index, count);
}

spec fn along(rect: PixelRect, axis: SplitAxis, x: int, y: int) -> int {
    match axis {
        SplitAxis::Horizontal => y - rect.y,
        SplitAxis::Vertical => x - rect.x,
    }
}

spec fn extent_of(rect: PixelRect, axis: SplitAxis) -> int {
    match axis {
        SplitAxis::Horizontal => rect.height as int,
        SplitAxis::Vertical => rect.width as int,
    }
}

/// Whether the far edges of a rectangle can be written in 32 bits.
pub open spec fn on_canvas(rect: PixelRect) -> bool {
    rect.x + rect.width <= u32::MAX && rect.y + rect.height <= u32::MAX
}

proof fn lemma_part(rect: PixelRect, axis: SplitAxis, index: int, count: int, x: int, y: int)
    requires
        0 <= index < count,
        on_canvas(rect),
    ensures
        on_canvas(part_of(rect, axis, index, count)),
        inside(part_of(rect, axis, index, count), x, y) <==> inside(rect, x, y) && edge(
            extent_of(rect, axis),
            index,
            count,
        ) <= along(rect, axis, x, y) < edge(extent_of(rect, axis), index + 1, count),
{
    lemma_edges(extent_of(rect, axis), index, count);
}

proof fn lemma_cells_tile(layout: Layout, rect: PixelRect, keep: bool, x: int, y: int)
    requires
        layout.missing() == 0,
        layout.inhabited(),
        on_canvas(rect),
    ensures
        hits(layout.cells(rect, keep), x, y) == if inside(rect, x, y) {
            1nat
        } else {
            0nat
        },
    decreases layout,
{
    match layout {
        Layout::Leaf { image, .. } => {
            let cells = layout.cells(rect, keep);
            assert(cells.len() == 1);
            assert(cells.drop_last() =~= Seq::<CompositionCell>::empty());
            reveal_with_fuel(hits, 2);
        },
        Layout::Group { axis, children, .. } => {
            let count = children.len() as int;
            lemma_cells_tile_in(children, 0, count, axis, rect, keep, x, y);
            lemma_edges(extent_of(rect, axis), 0, count);
            assert(extent_of(rect, axis) * 0 == 0);
            assert(edge(extent_of(rect, axis), 0, count) == 0) by {
                vstd::arithmetic::div_mod::lemma_div_basics(count);
            }
        },
    }
}

proof fn lemma_cells_tile_in(
    children: Seq<Layout>,
    index: int,
    count: int,
    axis: SplitAxis,
    rect: PixelRect,
    keep: bool,
    x: int,
    y: int,
)
    requires
        missing_in(children) == 0,
        inhabited_in(children),
        on_canvas(rect),
        0 <= index,
        0 < count,
        index + children.len() == count,
    ensures
        hits(cells_in(children, index, count, axis, rect, keep), x, y) == if inside(rect, x, y)
            && edge(extent_of(rect, axis), index, count) <= along(rect, axis, x, y) {
            1nat
        } else {
            0nat
        },
    decreases children,
{
    let extent = extent_of(rect, axis);
    if children.len() == 0 {
        vstd::arithmetic::div_mod::lemma_div_multiples_vanish(extent, count);
        assert(extent * count == count * extent) by (nonlinear_arith);
        assert(edge(extent, count, count) == extent);
    } else {
        let rest = children.subrange(1, children.len() as int);
        lemma_uncons(children);
        lemma_cons(children[0], rest);
        let part = part_of(rect, axis, index, count);
        lemma_part(rect, axis, index, count, x, y);
        lemma_edges(extent, index, count);
        lemma_cells_tile(children[0], part, keep, x, y);
        lemma_cells_tile_in(rest, index + 1, count, axis, rect, keep, x, y);
        lemma_hits_concat(
            children[0].cells(part, keep),
            cells_in(rest, index + 1, count, axis, rect, keep),
            x,
            y,
        );
    }
}

/// A layout whose groups are all split has no group without a child.
pub proof fn a_split_layout_is_inhabited(layout: Layout)
    requires
        layout.split(),
    ensures
        layout.inhabited(),
    decreases layout,
{
    if let Layout::Group { children, .. } = layout {
        lemma_inhabited_in(children);
    }
}

proof fn lemma_inhabited_in(children: Seq<Layout>)
    requires
        split_in(children),
    ensures
        inhabited_in(children),
    decreases children,
{
    if children.len() > 0 {
        a_split_layout_is_inhabited(children[0]);
        lemma_inhabited_in(children.subrange(1, children.len() as int));
    }
}

/// The cells of a layout in which no image is missing and no group is empty cover each pixel of
/// the rectangle exactly once and no pixel outside of it.
pub proof fn cells_tile_the_rectangle(
    layout: Layout,
    rect: PixelRect,
    keep_alpha: bool,
    x: int,
    y: int,
)
    requires
        layout.missing() == 0,
        layout.inhabited(),
        on_canvas(rect),
    ensures
        hits(layout.cells(rect, keep_alpha), x, y) == if inside(rect, x, y) {
            1nat
        } else {
            0nat
        },
{
    lemma_cells_tile(layout, rect, keep_alpha, x, y);
}

proof fn lemma_share(extent: int, index: int, count: int)
    requires
        0 <= extent,
        0 <= index < count,
    ensures
        extent / count <= edge(extent, index + 1, count) - edge(extent, index, count) <= extent
            / count + 1,
{
    let q = extent / count;
    let r = extent % count;
    vstd::arithmetic::div_mod::lemma_fundamental_div_mod(extent, count);
    assert(extent == count * q + r);
    assert(0 <= r < count) by {
        vstd::arithmetic::div_mod::lemma_mod_bound(extent, count);
    }
    assert(extent * index == count * (q * index) + r * index) by (nonlinear_arith)
        requires
            extent == count * q + r,
    ;
    assert(extent * (index + 1) == count * (q * (index + 1)) + r * (index + 1)) by (nonlinear_arith)
        requires
            extent == count * q + r,
    ;
    assert(q * (index + 1) == q * index + q) by (nonlinear_arith);
    assert(r * (index + 1) == r * index + r) by (nonlinear_arith);
    vstd::arithmetic::div_mod::lemma_hoist_over_denominator(r * index, q * index, count as nat);
    vstd::arithmetic::div_mod::lemma_hoist_over_denominator(
        r * (index + 1),
        q * (index + 1),
        count as nat,
    );
    assert(count * (q * index) == (q * index) * count) by (nonlinear_arith);
    assert(count * (q * (index + 1)) == (q * (index + 1)) * count) by (nonlinear_arith);
    let a = r * index;
    assert(a / count <= (a + r) / count <= a / count + 1) by {
        vstd::arithmetic::div_mod::lemma_div_is_ordered(a, a + r, count);
        vstd::arithmetic::div_mod::lemma_div_is_ordered(a + r, a + count, count);
        vstd::arithmetic::div_mod::lemma_hoist_over_denominator(a, 1, count as nat);
    }
}

/// The children of a group get equal shares: along its axis two of them differ by one pixel
/// at most, across it they all have the size of the group.
pub proof fn siblings_get_equal_shares(
    rect: PixelRect,
    axis: SplitAxis,
    i: int,
    j: int,
    count: int,
)
    requires
        on_canvas(rect),
        0 <= i < count,
        0 <= j < count,
    ensures
        ({
            let a = part_of(rect, axis, i, count);
            let b = part_of(rect, axis, j, count);
            match axis {
                SplitAxis::Horizontal => a.width == rect.width && b.width == rect.width && -1
                    <= a.height - b.height <= 1,
                SplitAxis::Vertical => a.height == rect.height && b.height == rect.height && -1
                    <= a.width - b.width <= 1,
            }
        }),
{
    lemma_share(extent_of(rect, axis), i, count);
    lemma_share(extent_of(rect, axis), j, count);
    lemma_edges(extent_of(rect, axis), i, count);
    lemma_edges(extent_of(rect, axis), j, count);
}

/// The leaves of a layout, in order.
pub open spec fn leaves(layout: Layout) -> Seq<Layout>
    decreases layout,
{
    match layout {
        Layout::Leaf { .. } => seq![layout],
        Layout::Group { children, .. } => leaves_in(children),
    }
}

/// The leaves of all the children, in order.
pub open spec fn leaves_in(children: Seq<Layout>) -> Seq<Layout>
    decreases children,
{
    if children.len() == 0 {
        Seq::empty()
    } else {
        leaves(children[0]) + leaves_in(children.subrange(1, children.len() as int))
    }
}

proof fn lemma_leaves_cons(first: Layout, rest: Seq<Layout>)
    ensures
        leaves_in(seq![first] + rest) == leaves(first) + leaves_in(rest),
{
    let all = seq![first] + rest;
    assert(tail(all) =~= rest);
    assert(all[0] == first);
}

proof fn lemma_leaves_add(a: Seq<Layout>, b: Seq<Layout>)
    ensures
        leaves_in(a + b) == leaves_in(a) + leaves_in(b),
    decreases a.len(),
{
    if a.len() == 0 {
        assert(a + b =~= b);
        assert(leaves_in(a) + leaves_in(b) =~= leaves_in(b));
    } else {
        lemma_leaves_add(tail(a), b);
        assert(a + b =~= seq![a[0]] + (tail(a) + b));
        lemma_leaves_cons(a[0], tail(a) + b);
        assert(leaves(a[0]) + (leaves_in(tail(a)) + leaves_in(b)) =~= leaves(a[0]) + leaves_in(
            tail(a),
        ) + leaves_in(b));
    }
}

proof fn lemma_leaves_one(layout: Layout)
    ensures
        leaves_in(seq![layout]) == leaves(layout),
{
    let none = Seq::<Layout>::empty();
    assert(seq![layout] =~= seq![layout] + none);
    lemma_leaves_cons(layout, none);
    assert(leaves(layout) + leaves_in(none) =~= leaves(layout));
}

/// Whether the second list of leaves is the first with one more right behind a section: behind its
/// last leaf, wherever that section stands.
pub open spec fn grown_behind(
    before: Seq<Layout>,
    section: Seq<Layout>,
    new: Layout,
    after: Seq<Layout>,
) -> bool {
    exists|a: Seq<Layout>, b: Seq<Layout>|
        before == #[trigger] (a + section + b) && after == a + section.push(new) + b
}

/// Whether the second list of leaves is the first without those of a section.
pub open spec fn cut_out(before: Seq<Layout>, section: Seq<Layout>, after: Seq<Layout>) -> bool {
    exists|a: Seq<Layout>, b: Seq<Layout>| before == #[trigger] (a + section + b) && after == a + b
}

/// Whether the second list of leaves is the first with another leaf in the place of one.
pub open spec fn exchanged(
    before: Seq<Layout>,
    target: u64,
    new: Layout,
    after: Seq<Layout>,
) -> bool {
    exists|k: int|
        0 <= k < before.len() && (#[trigger] before[k]).id() == target && after == before.update(
            k,
            new,
        )
}

proof fn lemma_grown_between(
    a: Seq<Layout>,
    before: Seq<Layout>,
    section: Seq<Layout>,
    new: Layout,
    after: Seq<Layout>,
    b: Seq<Layout>,
)
    requires
        grown_behind(before, section, new, after),
    ensures
        grown_behind(a + before + b, section, new, a + after + b),
{
    let (x, y) = choose|x: Seq<Layout>, y: Seq<Layout>|
        before == #[trigger] (x + section + y) && after == x + section.push(new) + y;
    assert(a + before + b =~= (a + x) + section + (y + b));
    assert(a + after + b =~= (a + x) + section.push(new) + (y + b));
}

proof fn lemma_cut_between(
    a: Seq<Layout>,
    before: Seq<Layout>,
    section: Seq<Layout>,
    after: Seq<Layout>,
    b: Seq<Layout>,
)
    requires
        cut_out(before, section, after),
    ensures
        cut_out(a + before + b, section, a + after + b),
{
    let (x, y) = choose|x: Seq<Layout>, y: Seq<Layout>|
        before == #[trigger] (x + section + y) && after == x + y;
    assert(a + before + b =~= (a + x) + section + (y + b));
    assert(a + after + b =~= (a + x) + (y + b));
}

proof fn lemma_exchanged_between(
    a: Seq<Layout>,
    before: Seq<Layout>,
    target: u64,
    new: Layout,
    after: Seq<Layout>,
    b: Seq<Layout>,
)
    requires
        exchanged(before, target, new, after),
    ensures
        exchanged(a + before + b, target, new, a + after + b),
{
    let k = choose|k: int|
        0 <= k < before.len() && (#[trigger] before[k]).id() == target && after == before.update(
            k,
            new,
        );
    let all = a + before + b;
    assert(all[a.len() + k] == before[k]);
    assert(all.update(a.len() + k, new) =~= a + after + b);
}

/// The leaves of the section to which something was added, and the leaf that was added.
pub open spec fn leaf_added(before: Seq<Layout>, target: u64, next: int, after: Seq<Layout>) -> bool {
    exists|section: Layout, new: u64|
        section.id() == target && (new == next || new == next + 1) && #[trigger] grown_behind(
            before,
            leaves(section),
            blank(new),
            after,
        )
}

proof fn lemma_added_leaves(layout: Layout, target: u64, axis: SplitAxis, next: int)
    requires
        0 <= next < u64::MAX,
    ensures
        layout.added(target, axis, next) matches Some((changed, _)) ==> leaf_added(
            leaves(layout),
            target,
            next,
            leaves(changed),
        ),
    decreases layout,
{
    let none = Seq::<Layout>::empty();
    if let Some((changed, after)) = layout.added(target, axis, next) {
        let before = leaves(layout);
        if layout.id() == target {
            match layout {
                Layout::Group { id, axis: own, children } if own == axis => {
                    let new = blank(next as u64);
                    assert(children.push(new) =~= children + seq![new]);
                    lemma_leaves_add(children, seq![new]);
                    lemma_leaves_one(new);
                    assert(leaves(changed) =~= none + before.push(new) + none);
                    assert(before =~= none + before + none);
                    assert(grown_behind(before, leaves(layout), blank(next as u64), leaves(changed)));
                },
                _ => {
                    let new = blank((next + 1) as u64);
                    lemma_leaves_one(new);
                    assert(seq![layout, new] =~= seq![layout] + seq![new]);
                    lemma_leaves_cons(layout, seq![new]);
                    assert(leaves(changed) == leaves_in(seq![layout, new]));
                    assert(leaves(changed) =~= none + before.push(new) + none);
                    assert(before =~= none + before + none);
                    assert(grown_behind(
                        before,
                        leaves(layout),
                        blank((next + 1) as u64),
                        leaves(changed),
                    ));
                },
            }
        } else {
            match layout {
                Layout::Leaf { .. } => {},
                Layout::Group { id, axis: own, children } => {
                    if own == axis && sibling_place(children, target, axis) is Some {
                        lemma_child_at(children, target);
                        let i = child_at(children, target)->0;
                        let new = blank(next as u64);
                        let head = children.take(i);
                        let rest = children.skip(i + 1);
                        assert(children =~= head + seq![children[i]] + rest);
                        assert(children.insert(i + 1, new) =~= head + seq![children[i]] + seq![new]
                            + rest);
                        lemma_leaves_add(head + seq![children[i]], rest);
                        lemma_leaves_add(head, seq![children[i]]);
                        lemma_leaves_add(head + seq![children[i]] + seq![new], rest);
                        lemma_leaves_add(head + seq![children[i]], seq![new]);
                        lemma_leaves_one(children[i]);
                        lemma_leaves_one(new);
                        let a = leaves_in(head);
                        let b = leaves_in(rest);
                        let section = leaves(children[i]);
                        assert(before =~= a + section + b);
                        assert(leaves(changed) =~= a + section.push(new) + b);
                        assert(grown_behind(
                            before,
                            leaves(children[i]),
                            blank(next as u64),
                            leaves(changed),
                        ));
                    } else {
                        lemma_added_leaves_in(children, target, axis, next);
                    }
                },
            }
        }
    }
}

proof fn lemma_added_leaves_in(children: Seq<Layout>, target: u64, axis: SplitAxis, next: int)
    requires
        0 <= next < u64::MAX,
    ensures
        added_in(children, target, axis, next) matches Some((changed, _)) ==> leaf_added(
            leaves_in(children),
            target,
            next,
            leaves_in(changed),
        ),
    decreases children,
{
    if children.len() > 0 {
        let rest = tail(children);
        let none = Seq::<Layout>::empty();
        lemma_added_leaves(children[0], target, axis, next);
        lemma_added_leaves_in(rest, target, axis, next);
        assert(children =~= seq![children[0]] + rest);
        lemma_leaves_cons(children[0], rest);
        match children[0].added(target, axis, next) {
            Some((changed, _)) => {
                lemma_leaves_cons(changed, rest);
                let before = leaves(children[0]);
                let after = leaves(changed);
                let (section, new) = choose|section: Layout, new: u64|
                    section.id() == target && (new == next || new == next + 1)
                        && #[trigger] grown_behind(before, leaves(section), blank(new), after);
                lemma_grown_between(
                    none,
                    before,
                    leaves(section),
                    blank(new),
                    after,
                    leaves_in(rest),
                );
                assert(none + before + leaves_in(rest) =~= leaves_in(children));
                assert(none + after + leaves_in(rest) =~= leaves_in(seq![changed] + rest));
            },
            None => {
                if let Some((changed, _)) = added_in(rest, target, axis, next) {
                    lemma_leaves_cons(children[0], changed);
                    let before = leaves_in(rest);
                    let after = leaves_in(changed);
                    let (section, new) = choose|section: Layout, new: u64|
                        section.id() == target && (new == next || new == next + 1)
                            && #[trigger] grown_behind(before, leaves(section), blank(new), after);
                    lemma_grown_between(
                        leaves(children[0]),
                        before,
                        leaves(section),
                        blank(new),
                        after,
                        none,
                    );
                    assert(leaves(children[0]) + before + none =~= leaves_in(children));
                    assert(leaves(children[0]) + after + none =~= leaves_in(
                        seq![children[0]] + changed,
                    ));
                }
            },
        }
    }
}

/// However a section is added, the layout gains exactly one leaf, without an image and under a fresh
/// identifier; it stands right behind the section that it was added to, and all other leaves stay as
/// they are and in their order.
pub proof fn an_addition_is_one_leaf_behind_its_section(
    layout: Layout,
    target: u64,
    axis: SplitAxis,
    next: int,
)
    requires
        0 <= next < u64::MAX,
    ensures
        layout.added(target, axis, next) matches Some((changed, _)) ==> leaf_added(
            leaves(layout),
            target,
            next,
            leaves(changed),
        ),
        layout.added(target, axis, next) matches Some((changed, _)) ==> leaves(changed).len()
            == leaves(layout).len() + 1,
{
    lemma_added_leaves(layout, target, axis, next);
    if let Some((changed, _)) = layout.added(target, axis, next) {
        let before = leaves(layout);
        let after = leaves(changed);
        let (section, new) = choose|section: Layout, new: u64|
            section.id() == target && (new == next || new == next + 1) && #[trigger] grown_behind(
                before,
                leaves(section),
                blank(new),
                after,
            );
        let own = leaves(section);
        let (a, b) = choose|a: Seq<Layout>, b: Seq<Layout>|
            before == #[trigger] (a + own + b) && after == a + own.push(blank(new)) + b;
        assert(after.len() == before.len() + 1);
    }
}

/// Whether a section of the given identifier was cut out.
pub open spec fn section_cut(before: Seq<Layout>, target: u64, after: Seq<Layout>) -> bool {
    exists|section: Layout| section.id() == target && #[trigger] cut_out(before, leaves(section), after)
}

proof fn lemma_regrouped(id: u64, axis: SplitAxis, children: Seq<Layout>)
    ensures
        leaves(regrouped(id, axis, children)) == leaves_in(children),
{
    if children.len() == 1 {
        assert(children =~= seq![children[0]]);
        lemma_leaves_one(children[0]);
    }
}

proof fn lemma_removed_leaves(layout: Layout, target: u64, axis: SplitAxis)
    ensures
        layout.removed(target, axis) matches Some(changed) ==> section_cut(
            leaves(layout),
            target,
            leaves(changed),
        ),
    decreases layout,
{
    if let Layout::Group { id, axis: own, children } = layout {
        if own == axis && child_at(children, target) is Some {
            lemma_child_at(children, target);
            let i = child_at(children, target)->0;
            if children.len() > 1 {
                let head = children.take(i);
                let rest = children.skip(i + 1);
                assert(children =~= head + seq![children[i]] + rest);
                assert(children.remove(i) =~= head + rest);
                lemma_regrouped(id, own, children.remove(i));
                lemma_leaves_add(head + seq![children[i]], rest);
                lemma_leaves_add(head, seq![children[i]]);
                lemma_leaves_add(head, rest);
                lemma_leaves_one(children[i]);
                assert(leaves(layout) =~= leaves_in(head) + leaves(children[i]) + leaves_in(rest));
                assert(cut_out(
                    leaves(layout),
                    leaves(children[i]),
                    leaves_in(head) + leaves_in(rest),
                ));
            }
        } else {
            lemma_removed_leaves_in(children, target, axis);
            if let Some(changed) = removed_in(children, target, axis) {
                lemma_regrouped(id, own, changed);
            }
        }
    }
}

proof fn lemma_removed_leaves_in(children: Seq<Layout>, target: u64, axis: SplitAxis)
    ensures
        removed_in(children, target, axis) matches Some(changed) ==> section_cut(
            leaves_in(children),
            target,
            leaves_in(changed),
        ),
    decreases children,
{
    if children.len() > 0 {
        let rest = tail(children);
        let none = Seq::<Layout>::empty();
        lemma_removed_leaves(children[0], target, axis);
        lemma_removed_leaves_in(rest, target, axis);
        assert(children =~= seq![children[0]] + rest);
        lemma_leaves_cons(children[0], rest);
        match children[0].removed(target, axis) {
            Some(changed) => {
                lemma_leaves_cons(changed, rest);
                let before = leaves(children[0]);
                let after = leaves(changed);
                let section = choose|section: Layout|
                    section.id() == target && #[trigger] cut_out(before, leaves(section), after);
                lemma_cut_between(none, before, leaves(section), after, leaves_in(rest));
                assert(none + before + leaves_in(rest) =~= leaves_in(children));
                assert(none + after + leaves_in(rest) =~= leaves_in(seq![changed] + rest));
            },
            None => {
                if let Some(changed) = removed_in(rest, target, axis) {
                    lemma_leaves_cons(children[0], changed);
                    let before = leaves_in(rest);
                    let after = leaves_in(changed);
                    let section = choose|section: Layout|
                        section.id() == target && #[trigger] cut_out(
                            before,
                            leaves(section),
                            after,
                        );
                    lemma_cut_between(leaves(children[0]), before, leaves(section), after, none);
                    assert(leaves(children[0]) + before + none =~= leaves_in(children));
                    assert(leaves(children[0]) + after + none =~= leaves_in(
                        seq![children[0]] + changed,
                    ));
                }
            },
        }
    }
}

/// A removal takes out the leaves of the section that was named, and no others: those before it and
/// those behind it stay as they are and in their order.
pub proof fn a_removal_takes_out_its_section(layout: Layout, target: u64, axis: SplitAxis)
    ensures
        layout.removed(target, axis) matches Some(changed) ==> section_cut(
            leaves(layout),
            target,
            leaves(changed),
        ),
{
    lemma_removed_leaves(layout, target, axis);
}

/// Whether one of the leaves has the given identifier.
pub open spec fn has_leaf(list: Seq<Layout>, target: u64) -> bool {
    exists|k: int| 0 <= k < list.len() && (#[trigger] list[k]).id() == target
}

proof fn lemma_pictured_leaves(layout: Layout, target: u64, path: PathBuf, preview: u64)
    ensures
        layout.pictured(target, path, preview) is Some <==> has_leaf(
            leaves(layout),
            target,
        ),
        layout.pictured(target, path, preview) matches Some(changed) ==> exchanged(
            leaves(layout),
            target,
            Layout::Leaf { id: target, image: Some(path), preview: Some(preview) },
            leaves(changed),
        ),
    decreases layout,
{
    match layout {
        Layout::Leaf { id, .. } => {
            assert(leaves(layout) == seq![layout]);
            if id == target {
                let new = Layout::Leaf { id: target, image: Some(path), preview: Some(preview) };
                assert(leaves(layout).update(0, new) =~= leaves(new));
                assert(leaves(layout)[0].id() == target);
            }
        },
        Layout::Group { id, axis, children } => {
            lemma_pictured_leaves_in(children, target, path, preview);
        },
    }
}

proof fn lemma_pictured_leaves_in(
    children: Seq<Layout>,
    target: u64,
    path: PathBuf,
    preview: u64,
)
    ensures
        pictured_in(children, target, path, preview) is Some <==> has_leaf(
            leaves_in(children),
            target,
        ),
        pictured_in(children, target, path, preview) matches Some(changed) ==> exchanged(
            leaves_in(children),
            target,
            Layout::Leaf { id: target, image: Some(path), preview: Some(preview) },
            leaves_in(changed),
        ),
    decreases children,
{
    if children.len() > 0 {
        let rest = tail(children);
        let none = Seq::<Layout>::empty();
        let new = Layout::Leaf { id: target, image: Some(path), preview: Some(preview) };
        lemma_pictured_leaves(children[0], target, path, preview);
        lemma_pictured_leaves_in(rest, target, path, preview);
        assert(children =~= seq![children[0]] + rest);
        lemma_leaves_cons(children[0], rest);
        let first = leaves(children[0]);
        let all = leaves_in(children);
        if has_leaf(all, target) {
            let k = choose|k: int| 0 <= k < all.len() && (#[trigger] all[k]).id() == target;
            if k < first.len() {
                assert(first[k] == all[k]);
            } else {
                assert(leaves_in(rest)[k - first.len()] == all[k]);
            }
        }
        match children[0].pictured(target, path, preview) {
            Some(changed) => {
                let k = choose|k: int| 0 <= k < first.len() && (#[trigger] first[k]).id() == target;
                assert(all[k] == first[k]);
                lemma_leaves_cons(changed, rest);
                lemma_exchanged_between(
                    none,
                    first,
                    target,
                    new,
                    leaves(changed),
                    leaves_in(rest),
                );
                assert(none + first + leaves_in(rest) =~= all);
                assert(none + leaves(changed) + leaves_in(rest) =~= leaves_in(
                    seq![changed] + rest,
                ));
            },
            None => {
                if let Some(changed) = pictured_in(rest, target, path, preview) {
                    let behind = leaves_in(rest);
                    let k = choose|k: int|
                        0 <= k < behind.len() && (#[trigger] behind[k]).id() == target;
                    assert(all[first.len() + k] == behind[k]);
                    lemma_leaves_cons(children[0], changed);
                    lemma_exchanged_between(first, behind, target, new, leaves_in(changed), none);
                    assert(first + behind + none =~= all);
                    assert(first + leaves_in(changed) + none =~= leaves_in(
                        seq![children[0]] + changed,
                    ));
                }
            },
        }
    }
}

/// An image goes to the leaf that was named, as far as there is one, and to no other: every other leaf
/// keeps what it has.
pub proof fn an_image_goes_to_its_leaf(layout: Layout, target: u64, path: PathBuf, preview: u64)
    ensures
        layout.pictured(target, path, preview) is Some <==> has_leaf(
            leaves(layout),
            target,
        ),
        layout.pictured(target, path, preview) matches Some(changed) ==> exchanged(
            leaves(layout),
            target,
            Layout::Leaf { id: target, image: Some(path), preview: Some(preview) },
            leaves(changed),
        ),
{
    lemma_pictured_leaves(layout, target, path, preview);
}

/// Whether a leaf has no image.
pub open spec fn lacks_image(leaf: Layout) -> bool {
    leaf matches Layout::Leaf { image, .. } && image is None
}

proof fn lemma_missing_leaves(layout: Layout)
    ensures
        layout.missing() == leaves(layout).filter(|leaf: Layout| lacks_image(leaf)).len(),
    decreases layout,
{
    reveal(Seq::filter);
    match layout {
        Layout::Leaf { .. } => {
            let own = leaves(layout);
            assert(own.drop_last() =~= Seq::<Layout>::empty());
            assert(own.last() == layout);
            assert(own.drop_last().filter(|leaf: Layout| lacks_image(leaf)).len() == 0);
        },
        Layout::Group { children, .. } => {
            lemma_missing_leaves_in(children);
        },
    }
}

proof fn lemma_missing_leaves_in(children: Seq<Layout>)
    ensures
        missing_in(children) == leaves_in(children).filter(|leaf: Layout| lacks_image(leaf)).len(),
    decreases children,
{
    if children.len() == 0 {
        reveal(Seq::filter);
    } else {
        lemma_missing_leaves(children[0]);
        lemma_missing_leaves_in(tail(children));
        let lacks = |leaf: Layout| lacks_image(leaf);
        Seq::filter_distributes_over_add(leaves(children[0]), leaves_in(tail(children)), lacks);
    }
}

/// As many images are missing as there are leaves without one.
pub proof fn each_leaf_without_an_image_is_missed(layout: Layout)
    ensures
        layout.missing() == leaves(layout).filter(|leaf: Layout| lacks_image(leaf)).len(),
{
    lemma_missing_leaves(layout);
}

/// The image of a leaf.
pub open spec fn image_of(leaf: Layout) -> Option<PathBuf> {
    match leaf {
        Layout::Leaf { image, .. } => image,
        Layout::Group { .. } => None,
    }
}

/// Whether the cells show the images of the leaves, one by one.
pub open spec fn shows(cells: Seq<CompositionCell>, leaves: Seq<Layout>, keep_alpha: bool) -> bool {
    &&& cells.len() == leaves.len()
    &&& forall|i: int|
        #![trigger cells[i]]
        0 <= i < cells.len() ==> image_of(leaves[i]) == Some(cells[i].image_path)
            && cells[i].keep_alpha == keep_alpha
}

proof fn lemma_shows(layout: Layout, rect: PixelRect, keep_alpha: bool)
    requires
        layout.missing() == 0,
    ensures
        shows(layout.cells(rect, keep_alpha), leaves(layout), keep_alpha),
    decreases layout,
{
    if let Layout::Group { axis, children, .. } = layout {
        lemma_shows_in(children, 0, children.len() as int, axis, rect, keep_alpha);
    }
}

proof fn lemma_shows_in(
    children: Seq<Layout>,
    index: int,
    count: int,
    axis: SplitAxis,
    rect: PixelRect,
    keep_alpha: bool,
)
    requires
        missing_in(children) == 0,
    ensures
        shows(
            cells_in(children, index, count, axis, rect, keep_alpha),
            leaves_in(children),
            keep_alpha,
        ),
    decreases children,
{
    if children.len() > 0 {
        let part = part_of(rect, axis, index, count);
        lemma_shows(children[0], part, keep_alpha);
        lemma_shows_in(tail(children), index + 1, count, axis, rect, keep_alpha);
        let own = children[0].cells(part, keep_alpha);
        let behind = cells_in(tail(children), index + 1, count, axis, rect, keep_alpha);
        let all = cells_in(children, index, count, axis, rect, keep_alpha);
        assert(all == own + behind);
        assert forall|i: int|
            #![trigger all[i]]
            0 <= i < all.len() implies image_of(leaves_in(children)[i]) == Some(all[i].image_path)
            && all[i].keep_alpha == keep_alpha by {
            if i < own.len() {
                assert(all[i] == own[i]);
            } else {
                assert(all[i] == behind[i - own.len()]);
            }
        }
    }
}

/// Each leaf has its cell, in the order of the leaves, and the cell shows the image of the leaf.
pub proof fn each_leaf_has_its_cell(layout: Layout, rect: PixelRect, keep_alpha: bool)
    requires
        layout.missing() == 0,
    ensures
        shows(layout.cells(rect, keep_alpha), leaves(layout), keep_alpha),
{
    lemma_shows(layout, rect, keep_alpha);
}

/// Whether cells stand among others one behind another, from a position on.
pub open spec fn run_at(
    all: Seq<CompositionCell>,
    own: Seq<CompositionCell>,
    start: int,
) -> bool {
    0 <= start && start + own.len() <= all.len() && all.subrange(start, start + own.len()) == own
}

/// A leaf fills the whole of its rectangle, and the cells of a child lie where its part of the group
/// lies: the child at a position has the part with that position.
pub proof fn a_child_fills_its_part(
    id: u64,
    axis: SplitAxis,
    children: Seq<Layout>,
    rect: PixelRect,
    keep_alpha: bool,
    k: int,
)
    requires
        missing_in(children) == 0,
        0 <= k < children.len(),
    ensures
        exists|start: int| #[trigger]
            run_at(
                (Layout::Group { id, axis, children }).cells(rect, keep_alpha),
                children[k].cells(part_of(rect, axis, k, children.len() as int), keep_alpha),
                start,
            ),
        children[k] is Leaf ==> children[k].cells(rect, keep_alpha).len() == 1 && children[k].cells(
            rect,
            keep_alpha,
        )[0].rect == rect,
{
    let count = children.len() as int;
    let all = (Layout::Group { id, axis, children }).cells(rect, keep_alpha);
    let own = children[k].cells(part_of(rect, axis, 0 + k, count), keep_alpha);
    lemma_part_of_cells(children, 0, count, axis, rect, keep_alpha, k);
    assert(all == cells_in(children, 0, count, axis, rect, keep_alpha));
    let start = choose|start: int| #[trigger]
        run_at(cells_in(children, 0, count, axis, rect, keep_alpha), own, start);
    assert(run_at(all, own, start));
    assert(0 + k == k);
    lemma_missing_child(children, k);
}

proof fn lemma_missing_child(children: Seq<Layout>, k: int)
    requires
        missing_in(children) == 0,
        0 <= k < children.len(),
    ensures
        children[k].missing() == 0,
    decreases children,
{
    if k > 0 {
        lemma_missing_child(tail(children), k - 1);
    }
}

proof fn lemma_part_of_cells(
    children: Seq<Layout>,
    index: int,
    count: int,
    axis: SplitAxis,
    rect: PixelRect,
    keep_alpha: bool,
    k: int,
)
    requires
        missing_in(children) == 0,
        0 <= k < children.len(),
    ensures
        exists|start: int| #[trigger]
            run_at(
                cells_in(children, index, count, axis, rect, keep_alpha),
                children[k].cells(part_of(rect, axis, index + k, count), keep_alpha),
                start,
            ),
    decreases children,
{
    let first = children[0].cells(part_of(rect, axis, index, count), keep_alpha);
    let behind = cells_in(tail(children), index + 1, count, axis, rect, keep_alpha);
    let all = cells_in(children, index, count, axis, rect, keep_alpha);
    assert(all == first + behind);
    if k == 0 {
        assert(all.subrange(0int, 0int + first.len()) =~= first);
        assert(run_at(all, first, 0));
    } else {
        lemma_part_of_cells(tail(children), index + 1, count, axis, rect, keep_alpha, k - 1);
        let own = children[k].cells(part_of(rect, axis, index + k, count), keep_alpha);
        assert(tail(children)[k - 1] == children[k]);
        let start = choose|start: int| #[trigger] run_at(behind, own, start);
        let moved: int = first.len() + start;
        assert(all.subrange(moved, moved + own.len()) =~= behind.subrange(
            start,
            start + own.len(),
        ));
        assert(run_at(all, own, moved));
    }
}

/// The parts of a group follow each other without a gap: the first begins where the group does, each
/// further one where the one before it ends, and the last ends where the group does. Rows go from the
/// top down and columns from left to right.
pub proof fn the_parts_follow_each_other(rect: PixelRect, axis: SplitAxis, i: int, count: int)
    requires
        on_canvas(rect),
        0 <= i < count,
    ensures
        ({
            let first = part_of(rect, axis, 0, count);
            let here = part_of(rect, axis, i, count);
            let next = part_of(rect, axis, i + 1, count);
            let last = part_of(rect, axis, count - 1, count);
            match axis {
                SplitAxis::Horizontal => {
                    &&& first.y == rect.y && here.x == rect.x && here.width == rect.width
                    &&& i + 1 < count ==> next.y == here.y + here.height
                    &&& last.y + last.height == rect.y + rect.height
                },
                SplitAxis::Vertical => {
                    &&& first.x == rect.x && here.y == rect.y && here.height == rect.height
                    &&& i + 1 < count ==> next.x == here.x + here.width
                    &&& last.x + last.width == rect.x + rect.width
                },
            }
        }),
{
    let extent = extent_of(rect, axis);
    lemma_edges(extent, 0, count);
    lemma_edges(extent, i, count);
    if i + 1 < count {
        lemma_edges(extent, i + 1, count);
    }
    lemma_edges(extent, count - 1, count);
    assert(edge(extent, 0, count) == 0) by {
        assert(extent * 0 == 0) by (nonlinear_arith);
    }
    assert(edge(extent, count, count) == extent) by {
        vstd::arithmetic::div_mod::lemma_div_by_multiple(extent, count);
    }
}

/// Whether no group of a layout has more than `n` children.
pub open spec fn small_groups(layout: Layout, n: int) -> bool
    decreases layout,
{
    match layout {
        Layout::Leaf { .. } => true,
        Layout::Group { children, .. } => children.len() <= n && small_groups_in(children, n),
    }
}

pub open spec fn small_groups_in(children: Seq<Layout>, n: int) -> bool
    decreases children,
{
    children.len() > 0 ==> small_groups(children[0], n) && small_groups_in(
        children.subrange(1, children.len() as int),
        n,
    )
}

/// Every layout can be composed within 65535 pixels in each direction, as long as no group has more
/// children than that.
pub proof fn common_layouts_can_be_composed(layout: Layout, rect: PixelRect)
    requires
        rect.x + rect.width <= 65535,
        rect.y + rect.height <= 65535,
        small_groups(layout, 65535),
    ensures
        layout.composable(rect),
    decreases layout,
{
    if let Layout::Group { axis, children, .. } = layout {
        lemma_composable_in(children, 0, children.len() as int, axis, rect);
    }
}

proof fn lemma_composable_in(
    children: Seq<Layout>,
    index: int,
    count: int,
    axis: SplitAxis,
    rect: PixelRect,
)
    requires
        rect.x + rect.width <= 65535,
        rect.y + rect.height <= 65535,
        0 <= index,
        index + children.len() == count,
        count <= 65535,
        small_groups_in(children, 65535),
    ensures
        composable_in(children, index, count, axis, rect),
    decreases children,
{
    if children.len() > 0 {
        let extent = match axis {
            SplitAxis::Horizontal => rect.height as int,
            SplitAxis::Vertical => rect.width as int,
        };
        lemma_part_bounds(extent, index, count);
        assert(extent * (index + 1) <= 65535 * 65535) by (nonlinear_arith)
            requires
                0 <= extent <= 65535,
                0 <= index + 1 <= 65535,
        ;
        let part = part_of(rect, axis, index, count);
        assert(part.x + part.width <= 65535 && part.y + part.height <= 65535);
        common_layouts_can_be_composed(children[0], part);
        lemma_composable_in(
            children.subrange(1, children.len() as int),
            index + 1,
            count,
            axis,
            rect,
        );
    }
}

}
