//! What holds of the store whatever state it is in: laws that relate one
//! operation to the next, each proved of the model that the operations'
//! contracts speak of.

use crate::graph::{acyclic, is_ancestor, lemma_cyclic_push, lemma_reaches_last, lemma_step_reaches};
use crate::invariants::{lemma_add_name, lemma_attach, lemma_filter_has_link};
use crate::model::{
    has_all, is_missing, names_a_tag, resolve, with_link, with_name, AssignError, HierarchyError,
    State, StoreError,
};
use crate::rows::{
    avoids, has_id, has_link, has_name, has_right, id_is_not, id_of, lemma_filter_members,
    lemma_filter_positions, link_is, link_is_not, name_is, next_link_id, next_name_id, Link,
    NameRow,
};
use vstd::prelude::*;

verus! {

/// The one element that satisfies a predicate is all that a filter keeps.
pub proof fn lemma_filter_one<A>(s: Seq<A>, p: spec_fn(A) -> bool, i: int)
    requires
        0 <= i < s.len(),
        p(s[i]),
        forall|j: int| 0 <= j < s.len() && j != i ==> !p(#[trigger] s[j]),
    ensures
        s.filter(p) == seq![s[i]],
{
    let pos = lemma_filter_positions(s, p);
    if pos.len() > 1 {
        assert(pos[0] == i && pos[1] == i);
    }
}

/// Words that name no tag make no difference to what a list of words
/// resolves to.
pub proof fn lemma_resolve_known(tags: Seq<NameRow>, words: Seq<Seq<char>>)
    ensures
        resolve(tags, words) == resolve(tags, words.filter(names_a_tag(tags))),
    decreases words.len(),
{
    let known = names_a_tag(tags);
    reveal(Seq::filter);
    if words.len() > 0 {
        let front = words.drop_last();
        let last = words.last();
        lemma_resolve_known(tags, front);
        if known(last) {
            let kept = front.filter(known).push(last);
            assert(kept.drop_last() =~= front.filter(known));
        }
    }
}

impl State {
    /// Cycle safety. Whatever link the hierarchy takes, no tag becomes its
    /// own ancestor; and among the links between two different existing tags
    /// that are not there yet and for which an id is left, it refuses exactly
    /// those that would close a cycle.
    pub proof fn law_cycle_safety(self, parent: i64, child: i64)
        requires
            self.wf(),
        ensures
            self.add_hierarchy_edge(parent, child) is Ok ==> acyclic(
                self.add_hierarchy_edge(parent, child)->Ok_0.subtag_map,
            ),
            self.add_hierarchy_edge(parent, child) == Err::<State, HierarchyError>(
                HierarchyError::WouldCreateCycle,
            ) ==> !acyclic(with_link(self.subtag_map, parent, child)),
    {
        if self.add_hierarchy_edge(parent, child) is Ok {
            self.lemma_add_hierarchy_edge_wf(parent, child);
        }
        if self.add_hierarchy_edge(parent, child) == Err::<State, HierarchyError>(
            HierarchyError::WouldCreateCycle,
        ) {
            lemma_cyclic_push(
                self.subtag_map,
                Link { id: next_link_id(self.subtag_map) as i64, left: parent, right: child },
            );
        }
    }

    /// Cycle safety, of any sequence of links. Whatever links are offered to
    /// the hierarchy one after the other, and whichever of them it takes, no
    /// tag becomes its own ancestor.
    pub proof fn law_cycle_safety_of_sequences(self, links: Seq<(i64, i64)>)
        requires
            self.wf(),
        ensures
            self.with_edges(links).wf(),
            acyclic(self.with_edges(links).subtag_map),
        decreases links.len(),
    {
        if links.len() > 0 {
            self.law_cycle_safety_of_sequences(links.drop_last());
            let s = self.with_edges(links.drop_last());
            if s.add_hierarchy_edge(links.last().0, links.last().1) is Ok {
                s.lemma_add_hierarchy_edge_wf(links.last().0, links.last().1);
            }
        }
    }

    /// Cycle safety, the smallest case: once `a` is a parent of `b`, the
    /// hierarchy refuses to make `b` a parent of `a`.
    pub proof fn law_back_edge_refused(self, a: i64, b: i64)
        requires
            self.wf(),
            self.add_hierarchy_edge(a, b) is Ok,
        ensures
            self.add_hierarchy_edge(a, b)->Ok_0.add_hierarchy_edge(b, a) == Err::<
                State,
                HierarchyError,
            >(HierarchyError::WouldCreateCycle),
    {
        let t = self.add_hierarchy_edge(a, b)->Ok_0;
        lemma_step_reaches(t.subtag_map, true, b, a);
        if has_link(t.subtag_map, b, a) {
            lemma_step_reaches(self.subtag_map, true, a, b);
        }
    }

    /// Idempotent assignment. An assignment that succeeded succeeds again
    /// and then changes nothing; the item has the tag in exactly one row.
    pub proof fn law_assign_twice(self, item: i64, name: Seq<char>, create: bool)
        requires
            self.wf(),
            self.assign(item, name, create) is Ok,
        ensures
            self.assign(item, name, create)->Ok_0.assign(item, name, create) == Ok::<
                State,
                AssignError,
            >(self.assign(item, name, create)->Ok_0),
            id_of(self.assign(item, name, create)->Ok_0.tags, name) is Some,
            self.assign(item, name, create)->Ok_0.tag_map.filter(
                link_is(item, id_of(self.assign(item, name, create)->Ok_0.tags, name)->Some_0),
            ).len() == 1,
    {
        let t = self.assign(item, name, create)->Ok_0;
        self.lemma_assign_wf(item, name, create);
        let tag = self.lemma_assign_holds(item, name, create);
        // nothing is missing the second time
        let rows = t.missing(item, tag);
        if rows.len() > 0 {
            assert(has_id(rows, rows[0].0));
        }
        // one row
        let i = choose|i: int|
            0 <= i < t.tag_map.len() && (#[trigger] t.tag_map[i]).left == item
                && t.tag_map[i].right == tag;
        lemma_filter_one(t.tag_map, link_is(item, tag), i);
    }

    /// What an assignment that succeeded leaves: the tag of that name, which
    /// the item now has, with every ancestor of it; the hierarchy as it was.
    pub proof fn lemma_assign_holds(self, item: i64, name: Seq<char>, create: bool) -> (tag: i64)
        requires
            self.wf(),
            self.assign(item, name, create) is Ok,
        ensures
            id_of(self.assign(item, name, create)->Ok_0.tags, name) == Some(tag),
            has_id(self.assign(item, name, create)->Ok_0.tags, tag),
            self.assign(item, name, create)->Ok_0.subtag_map == self.subtag_map,
            self.assign(item, name, create)->Ok_0.images == self.images,
            has_link(self.assign(item, name, create)->Ok_0.tag_map, item, tag),
            forall|a: i64|
                is_ancestor(self.subtag_map, a, tag) ==> has_link(
                    self.assign(item, name, create)->Ok_0.tag_map,
                    item,
                    a,
                ),
            forall|l: i64, r: i64|
                has_link(self.tag_map, l, r) ==> has_link(
                    self.assign(item, name, create)->Ok_0.tag_map,
                    l,
                    r,
                ),
            forall|l: i64, r: i64|
                has_link(self.assign(item, name, create)->Ok_0.tag_map, l, r) ==> has_link(
                    self.tag_map,
                    l,
                    r,
                ) || (l == item && (r == tag || is_ancestor(self.subtag_map, r, tag))),
    {
        let t = self.assign(item, name, create)->Ok_0;
        let base = match id_of(self.tags, name) {
            Some(_) => self,
            None => State { tags: with_name(self.tags, name), ..self },
        };
        let tag = match id_of(self.tags, name) {
            Some(id) => id,
            None => next_name_id(self.tags) as i64,
        };
        if id_of(self.tags, name) is None {
            lemma_add_name(self.tags, name);
        }
        assert(has_id(base.tags, tag));
        base.lemma_missing(item, tag);
        lemma_attach(base.tag_map, item, base.missing(item, tag));
        assert forall|a: i64| is_ancestor(self.subtag_map, a, tag) implies has_link(
            t.tag_map,
            item,
            a,
        ) by {
            lemma_reaches_last(self.subtag_map, true, tag, a);
        }
        tag
    }

    /// Propagation. After an assignment that succeeded the item has the tag
    /// of that name and every ancestor of the tag.
    pub proof fn law_assign_propagates(self, item: i64, name: Seq<char>, create: bool)
        requires
            self.wf(),
            self.assign(item, name, create) is Ok,
        ensures
            id_of(self.assign(item, name, create)->Ok_0.tags, name) is Some,
            has_link(
                self.assign(item, name, create)->Ok_0.tag_map,
                item,
                id_of(self.assign(item, name, create)->Ok_0.tags, name)->Some_0,
            ),
            forall|a: i64|
                is_ancestor(
                    self.assign(item, name, create)->Ok_0.subtag_map,
                    a,
                    id_of(self.assign(item, name, create)->Ok_0.tags, name)->Some_0,
                ) ==> has_link(self.assign(item, name, create)->Ok_0.tag_map, item, a),
    {
        self.lemma_assign_holds(item, name, create);
    }

    /// Removal is not retroactive. Taking a link out of the hierarchy leaves
    /// every assignment, every tag, item and namespace as it was.
    pub proof fn law_remove_edge_keeps_assignments(self, parent: i64, child: i64)
        requires
            self.remove_hierarchy_edge(parent, child) is Ok,
        ensures
            self.remove_hierarchy_edge(parent, child)->Ok_0.tag_map == self.tag_map,
            self.remove_hierarchy_edge(parent, child)->Ok_0.tags == self.tags,
            self.remove_hierarchy_edge(parent, child)->Ok_0.images == self.images,
            self.remove_hierarchy_edge(parent, child)->Ok_0.namespaces == self.namespaces,
            self.remove_hierarchy_edge(parent, child)->Ok_0.namespace_map == self.namespace_map,
            !has_link(self.remove_hierarchy_edge(parent, child)->Ok_0.subtag_map, parent, child),
    {
    }

    /// Taking a tag from an item leaves the item's other tags, the ancestors
    /// of the tag among them.
    pub proof fn law_unassign_keeps_others(self, tag: i64, item: i64, l: i64, r: i64)
        requires
            self.unassign(tag, item) is Ok,
        ensures
            has_link(self.unassign(tag, item)->Ok_0.tag_map, l, r) <==> has_link(self.tag_map, l, r)
                && !(l == item && r == tag),
    {
        lemma_filter_has_link(self.tag_map, link_is_not(item, tag));
    }

    /// Orphan detection, first half. A tag that was just created is among
    /// the tags that no item has.
    pub proof fn law_new_tag_is_orphan(self, name: Seq<char>)
        requires
            self.wf(),
            self.create_tag(name) is Ok,
        ensures
            self.create_tag(name)->Ok_0.0.orphan_tags().contains(
                (self.create_tag(name)->Ok_0.1, name),
            ),
    {
        lemma_add_name(self.tags, name);
    }

    /// Orphan detection, second half. A tag that was just assigned is not
    /// among the tags that no item has.
    pub proof fn law_assigned_tag_is_no_orphan(self, item: i64, name: Seq<char>, create: bool)
        requires
            self.wf(),
            self.assign(item, name, create) is Ok,
        ensures
            id_of(self.assign(item, name, create)->Ok_0.tags, name) is Some,
            !has_id(
                self.assign(item, name, create)->Ok_0.orphan_tags(),
                id_of(self.assign(item, name, create)->Ok_0.tags, name)->Some_0,
            ),
    {
        self.lemma_assign_holds(item, name, create);
    }

    /// Query intersection. An item is in the answer to a query exactly if it
    /// has every tag that a word of the query names.
    pub proof fn law_query_is_intersection(self, query: Seq<char>, row: NameRow)
        ensures
            self.compile_and_run(query).contains(row) <==> self.images.contains(row) && forall|
                k: int,
            |
                0 <= k < resolve(self.tags, crate::text::words_of(query)).len() ==> has_link(
                    self.tag_map,
                    row.0,
                    #[trigger] resolve(self.tags, crate::text::words_of(query))[k],
                ),
    {
        let ids = resolve(self.tags, crate::text::words_of(query));
        lemma_filter_members(self.images, has_all(self.tag_map, ids));
    }

    /// Unknown-token tolerance. Two queries whose words differ only in words
    /// that name no tag have the same answer.
    pub proof fn law_unknown_words_ignored(self, query: Seq<char>, other: Seq<char>)
        requires
            crate::text::words_of(query).filter(names_a_tag(self.tags)) == crate::text::words_of(
                other,
            ).filter(names_a_tag(self.tags)),
        ensures
            self.compile_and_run(query) == self.compile_and_run(other),
    {
        lemma_resolve_known(self.tags, crate::text::words_of(query));
        lemma_resolve_known(self.tags, crate::text::words_of(other));
    }

    /// Unknown-token tolerance, word by word. A word that names no tag,
    /// written behind a query, does not change the answer.
    pub proof fn law_unknown_word_ignored(self, query: Seq<char>, word: Seq<char>)
        requires
            word.len() > 0,
            forall|k: int| 0 <= k < word.len() ==> !crate::text::is_space(#[trigger] word[k]),
            !has_name(self.tags, word),
        ensures
            self.compile_and_run(query + seq![' '] + word) == self.compile_and_run(query),
    {
        crate::text::lemma_words_append(query, word);
        let words = crate::text::words_of(query);
        assert(words.push(word).drop_last() =~= words);
    }

    /// What is gone cannot be deleted again. Deleting a tag, an item or a
    /// namespace that was just deleted is refused.
    pub proof fn law_delete_once(self, id: i64)
        requires
            self.wf(),
        ensures
            self.delete_tag(id) is Ok ==> self.delete_tag(id)->Ok_0.delete_tag(id) == Err::<
                State,
                StoreError,
            >(StoreError::NotFound),
            self.delete_item(id) is Ok ==> self.delete_item(id)->Ok_0.delete_item(id) == Err::<
                State,
                StoreError,
            >(StoreError::NotFound),
            self.delete_namespace(id) is Ok ==> self.delete_namespace(id)->Ok_0.delete_namespace(
                id,
            ) == Err::<State, StoreError>(StoreError::NotFound),
    {
        lemma_filter_members(self.tags, id_is_not(id));
        lemma_filter_members(self.images, id_is_not(id));
        lemma_filter_members(self.namespaces, id_is_not(id));
    }

    /// A link that was taken out of the hierarchy cannot be taken out again,
    /// in whichever direction it is named.
    pub proof fn law_remove_connection_once(self, a: i64, b: i64)
        requires
            self.remove_connection(a, b) is Ok,
        ensures
            !has_link(self.remove_connection(a, b)->Ok_0.subtag_map, a, b),
            !has_link(self.remove_connection(a, b)->Ok_0.subtag_map, b, a),
            self.remove_connection(a, b)->Ok_0.remove_connection(a, b) == Err::<State, StoreError>(
                StoreError::NotFound,
            ),
            self.remove_connection(a, b)->Ok_0.remove_connection(b, a) == Err::<State, StoreError>(
                StoreError::NotFound,
            ),
            self.remove_hierarchy_edge(a, b) is Ok ==> self.remove_hierarchy_edge(
                a,
                b,
            )->Ok_0.remove_hierarchy_edge(a, b) == Err::<State, StoreError>(StoreError::NotFound),
    {
        let once = self.subtag_map.filter(link_is_not(a, b));
        lemma_filter_has_link(self.subtag_map, link_is_not(a, b));
        lemma_filter_has_link(once, link_is_not(b, a));
    }

    /// When success is owed. A tag is created wherever no tag has the name
    /// and the tag table has an id left; a link is taken wherever the two tags
    /// exist, differ, are not linked that way, the child is no ancestor of the
    /// parent, and the table has an id left; a tag is put into a namespace
    /// wherever both exist, the tag is in none, and the table has an id left.
    pub proof fn law_success_is_owed(self, name: Seq<char>, a: i64, b: i64)
        ensures
            !has_name(self.tags, name) && next_name_id(self.tags) <= i64::MAX
                ==> self.create_tag(name) is Ok,
            has_id(self.tags, a) && has_id(self.tags, b) && a != b && !has_link(
                self.subtag_map,
                a,
                b,
            ) && !is_ancestor(self.subtag_map, b, a) && next_link_id(self.subtag_map) <= i64::MAX
                ==> self.add_hierarchy_edge(a, b) is Ok,
            has_id(self.tags, a) && has_id(self.namespaces, b) && !has_right(self.namespace_map, a)
                && next_link_id(self.namespace_map) <= i64::MAX ==> self.set_namespace(a, b) is Ok,
    {
    }

    /// When an assignment is owed. It succeeds wherever the item exists, a
    /// tag has the name or one is to be created and the tag table has an id
    /// left, and the assignment table has ids left for as many rows as there
    /// are tags.
    pub proof fn law_assign_is_owed(self, item: i64, name: Seq<char>, create: bool)
        requires
            has_id(self.images, item),
            id_of(self.tags, name) is Some || (create && next_name_id(self.tags) <= i64::MAX),
            next_link_id(self.tag_map) + self.tags.len() <= i64::MAX,
        ensures
            self.assign(item, name, create) is Ok,
    {
        match id_of(self.tags, name) {
            Some(tag) => {
                self.tags.lemma_filter_len(is_missing(self.subtag_map, self.tag_map, item, tag));
            },
            None => {
                let more = with_name(self.tags, name);
                more.lemma_filter_len(
                    is_missing(self.subtag_map, self.tag_map, item, next_name_id(self.tags) as i64),
                );
            },
        }
    }

    /// Cascade delete, of a tag. With the tag go all links of the hierarchy
    /// that it is part of, all its assignments and its place in a namespace;
    /// every other link stays, and so does every item and namespace.
    pub proof fn law_delete_tag_cascades(self, id: i64, l: i64, r: i64)
        requires
            self.delete_tag(id) is Ok,
        ensures
            !has_id(self.delete_tag(id)->Ok_0.tags, id),
            forall|row: NameRow|
                self.delete_tag(id)->Ok_0.tags.contains(row) <==> self.tags.contains(row) && row.0
                    != id,
            has_link(self.delete_tag(id)->Ok_0.subtag_map, l, r) <==> has_link(
                self.subtag_map,
                l,
                r,
            ) && l != id && r != id,
            has_link(self.delete_tag(id)->Ok_0.tag_map, l, r) <==> has_link(self.tag_map, l, r) && r
                != id,
            has_link(self.delete_tag(id)->Ok_0.namespace_map, l, r) <==> has_link(
                self.namespace_map,
                l,
                r,
            ) && r != id,
            self.delete_tag(id)->Ok_0.images == self.images,
            self.delete_tag(id)->Ok_0.namespaces == self.namespaces,
    {
        lemma_filter_members(self.tags, id_is_not(id));
        lemma_filter_has_link(self.subtag_map, avoids(id, true, true));
        lemma_filter_has_link(self.tag_map, avoids(id, false, true));
        lemma_filter_has_link(self.namespace_map, avoids(id, false, true));
    }

    /// Cascade delete, of an item. With the item go its assignments and
    /// nothing else.
    pub proof fn law_delete_item_cascades(self, id: i64, l: i64, r: i64)
        requires
            self.delete_item(id) is Ok,
        ensures
            forall|row: NameRow|
                self.delete_item(id)->Ok_0.images.contains(row) <==> self.images.contains(row)
                    && row.0 != id,
            has_link(self.delete_item(id)->Ok_0.tag_map, l, r) <==> has_link(self.tag_map, l, r)
                && l != id,
            self.delete_item(id)->Ok_0.tags == self.tags,
            self.delete_item(id)->Ok_0.namespaces == self.namespaces,
            self.delete_item(id)->Ok_0.subtag_map == self.subtag_map,
            self.delete_item(id)->Ok_0.namespace_map == self.namespace_map,
    {
        lemma_filter_members(self.images, id_is_not(id));
        lemma_filter_has_link(self.tag_map, avoids(id, true, false));
    }

    /// Uniqueness. Once a tag of some name is created, creating another of
    /// that name is refused, and the table has one row of the name.
    pub proof fn law_second_create_refused(self, name: Seq<char>)
        requires
            self.wf(),
            self.create_tag(name) is Ok,
        ensures
            self.create_tag(name)->Ok_0.0.create_tag(name) == Err::<(State, i64), StoreError>(
                StoreError::UniqueViolation,
            ),
            self.create_tag(name)->Ok_0.0.tags.filter(name_is(name)).len() == 1,
    {
        let t = self.create_tag(name)->Ok_0.0;
        let n = self.tags.len() as int;
        lemma_filter_one(t.tags, name_is(name), n);
    }
}

} // verus!
