//! Taking a store from plain tables and giving it back: what a caller needs
//! to keep a store somewhere else. Tables that come from outside are
//! checked row by row before they are taken.

use crate::graph::{acyclic, holds, lemma_reaches_last, reachable_from, reaches};
use crate::model::State;
use crate::rows::{
    has_id, lefts_within, links_sorted, names_distinct, names_sorted, pairs_distinct,
    rights_distinct, rights_within, Link,
};
use crate::tables::find_id;
use vstd::prelude::*;

verus! {

/// The six tables as plain rows.
pub struct Tables {
    pub tags: Vec<(i64, String)>,
    pub namespaces: Vec<(i64, String)>,
    pub images: Vec<(i64, String)>,
    pub namespace_map: Vec<Link>,
    pub subtag_map: Vec<Link>,
    pub tag_map: Vec<Link>,
}

impl View for Tables {
    type V = State;

    open spec fn view(&self) -> State {
        State {
            tags: self.tags.deep_view(),
            namespaces: self.namespaces.deep_view(),
            images: self.images.deep_view(),
            namespace_map: self.namespace_map@,
            subtag_map: self.subtag_map@,
            tag_map: self.tag_map@,
        }
    }
}

/// Whether the ids of an entity table grow from row to row.
pub fn names_in_order(rows: &Vec<(i64, String)>) -> (r: bool)
    ensures
        r == names_sorted(rows.deep_view()),
{
    let ghost view = rows.deep_view();
    let mut i: usize = 1;
    while i < rows.len()
        invariant
            1 <= i,
            view == rows.deep_view(),
            forall|a: int, b: int|
                0 <= a < b < i && b < view.len() ==> (#[trigger] view[a]).0 < (
                #[trigger] view[b]).0,
        decreases rows@.len() - i,
    {
        proof {
            assert(view[i as int].0 == rows@[i as int].0);
            assert(view[i - 1].0 == rows@[i - 1].0);
        }
        if rows[i - 1].0 >= rows[i].0 {
            return false;
        }
        i += 1;
    }
    true
}

/// Whether no two rows of an entity table carry the same name.
pub fn names_differ(rows: &Vec<(i64, String)>) -> (r: bool)
    ensures
        r == names_distinct(rows.deep_view()),
{
    let ghost view = rows.deep_view();
    let mut i: usize = 0;
    while i < rows.len()
        invariant
            i <= rows@.len(),
            view == rows.deep_view(),
            forall|a: int, b: int|
                0 <= a < i && 0 <= b < i && a != b ==> (#[trigger] view[a]).1 != (
                #[trigger] view[b]).1,
        decreases rows@.len() - i,
    {
        let mut j: usize = 0;
        while j < i
            invariant
                j <= i < rows@.len(),
                view == rows.deep_view(),
                forall|b: int| 0 <= b < j ==> (#[trigger] view[b]).1 != view[i as int].1,
            decreases i - j,
        {
            proof {
                assert(view[i as int].1 == rows@[i as int].1@);
                assert(view[j as int].1 == rows@[j as int].1@);
            }
            if rows[j].1 == rows[i].1 {
                return false;
            }
            j += 1;
        }
        i += 1;
    }
    true
}

/// Whether the row ids of a relation table grow from row to row.
pub fn links_in_order(links: &Vec<Link>) -> (r: bool)
    ensures
        r == links_sorted(links@),
{
    let mut i: usize = 1;
    while i < links.len()
        invariant
            1 <= i,
            forall|a: int, b: int|
                0 <= a < b < i && b < links@.len() ==> (#[trigger] links@[a]).id < (
                #[trigger] links@[b]).id,
        decreases links@.len() - i,
    {
        if links[i - 1].id >= links[i].id {
            return false;
        }
        i += 1;
    }
    true
}

/// Whether no two rows of a relation table connect the same pair; with
/// `right_only`, whether no two have the same right side.
pub fn links_differ(links: &Vec<Link>, right_only: bool) -> (r: bool)
    ensures
        r == if right_only {
            rights_distinct(links@)
        } else {
            pairs_distinct(links@)
        },
{
    let mut i: usize = 0;
    while i < links.len()
        invariant
            i <= links@.len(),
            forall|a: int, b: int|
                0 <= a < i && 0 <= b < i && a != b ==> !((right_only || (#[trigger] links@[a]).left
                    == (#[trigger] links@[b]).left) && links@[a].right == links@[b].right),
        decreases links@.len() - i,
    {
        let mut j: usize = 0;
        while j < i
            invariant
                j <= i < links@.len(),
                forall|b: int|
                    0 <= b < j ==> !((right_only || (#[trigger] links@[b]).left
                        == links@[i as int].left) && links@[b].right == links@[i as int].right),
            decreases i - j,
        {
            if (right_only || links[j].left == links[i].left) && links[j].right == links[i].right {
                return false;
            }
            j += 1;
        }
        i += 1;
    }
    true
}

/// Whether every left side of `links`, or with `right` every right side, is
/// an id of `rows`.
pub fn sides_within(links: &Vec<Link>, rows: &Vec<(i64, String)>, right: bool) -> (r: bool)
    ensures
        r == if right {
            rights_within(links@, rows.deep_view())
        } else {
            lefts_within(links@, rows.deep_view())
        },
{
    let mut i: usize = 0;
    while i < links.len()
        invariant
            i <= links@.len(),
            forall|k: int|
                0 <= k < i ==> has_id(
                    rows.deep_view(),
                    if right {
                        (#[trigger] links@[k]).right
                    } else {
                        links@[k].left
                    },
                ),
        decreases links@.len() - i,
    {
        let side: i64 = if right {
            links[i].right
        } else {
            links[i].left
        };
        if find_id(rows, side).is_none() {
            return false;
        }
        i += 1;
    }
    true
}

/// Whether the hierarchy that `links` make has no cycle.
pub fn no_cycle(links: &Vec<Link>) -> (r: bool)
    ensures
        r == acyclic(links@),
{
    let mut i: usize = 0;
    while i < links.len()
        invariant
            i <= links@.len(),
            forall|k: int|
                0 <= k < i ==> !reaches(links@, true, (#[trigger] links@[k]).left, links@[k].left),
        decreases links@.len() - i,
    {
        let t: i64 = links[i].left;
        let above = reachable_from(links, true, t);
        if holds(&above, t) {
            return false;
        }
        i += 1;
    }
    proof {
        assert forall|t: i64| !reaches(links@, true, t, t) by {
            if reaches(links@, true, t, t) {
                lemma_reaches_last(links@, true, t, t);
            }
        }
    }
    true
}

impl Tables {
    /// Whether the tables are consistent with one another: see
    /// [`State::wf`].
    pub fn check(&self) -> (r: bool)
        ensures
            r == self@.wf(),
    {
        names_in_order(&self.tags) && names_differ(&self.tags) && names_in_order(&self.namespaces)
            && names_differ(&self.namespaces) && names_in_order(&self.images) && names_differ(
            &self.images,
        ) && links_in_order(&self.namespace_map) && links_differ(&self.namespace_map, true)
            && sides_within(&self.namespace_map, &self.namespaces, false) && sides_within(
            &self.namespace_map,
            &self.tags,
            true,
        ) && links_in_order(&self.subtag_map) && links_differ(&self.subtag_map, false)
            && sides_within(&self.subtag_map, &self.tags, false) && sides_within(
            &self.subtag_map,
            &self.tags,
            true,
        ) && no_cycle(&self.subtag_map) && links_in_order(&self.tag_map) && links_differ(
            &self.tag_map,
            false,
        ) && sides_within(&self.tag_map, &self.images, false) && sides_within(
            &self.tag_map,
            &self.tags,
            true,
        )
    }
}

} // verus!
