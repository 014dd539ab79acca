//! Every operation keeps the store consistent.

use crate::graph::{acyclic, is_ancestor, lemma_acyclic_mono, lemma_acyclic_push};
use crate::model::{add_name, attach, is_missing, rename_row, with_name, State, Table};
use crate::rows::{
    avoids, first_index, has_id, has_link, id_is, id_is_not, id_of, lefts_within,
    lemma_filter_links, lemma_filter_names, lemma_filter_positions, link_id_is_not, link_is_not,
    links_sorted, name_is, names_distinct, names_sorted, next_link_id, next_name_id, pairs_distinct,
    rights_within, Link, NameRow,
};
use vstd::prelude::*;

verus! {

/// A new row keeps an entity table sorted and its names distinct; it brings
/// one id that was not in use and loses none.
pub proof fn lemma_add_name(rows: Seq<NameRow>, name: Seq<char>)
    requires
        names_sorted(rows),
        names_distinct(rows),
        add_name(rows, name) is Ok,
    ensures
        names_sorted(with_name(rows, name)),
        names_distinct(with_name(rows, name)),
        forall|x: i64| has_id(rows, x) ==> has_id(with_name(rows, name), x),
        forall|x: i64|
            has_id(with_name(rows, name), x) ==> has_id(rows, x) || x == next_name_id(rows),
        has_id(with_name(rows, name), next_name_id(rows) as i64),
        !has_id(rows, next_name_id(rows) as i64),
        id_of(with_name(rows, name), name) == Some(next_name_id(rows) as i64),
        forall|other: Seq<char>|
            other != name ==> id_of(with_name(rows, name), other) == id_of(rows, other),
{
    let more = with_name(rows, name);
    let n = rows.len() as int;
    assert(more[n] == (next_name_id(rows) as i64, name));
    assert forall|x: i64| has_id(rows, x) implies has_id(more, x) by {
        let i = choose|i: int| 0 <= i < rows.len() && (#[trigger] rows[i]).0 == x;
        assert(more[i] == rows[i]);
    }
    assert forall|other: Seq<char>| other != name implies id_of(more, other) == id_of(
        rows,
        other,
    ) by {
        if let Some(i) = first_index(rows, name_is(other)) {
            assert(name_is(other)(more[i]));
        }
    }
}

/// Fewer links stay within the same tables.
pub proof fn lemma_within_filter(links: Seq<Link>, p: spec_fn(Link) -> bool, rows: Seq<NameRow>)
    ensures
        lefts_within(links, rows) ==> lefts_within(links.filter(p), rows),
        rights_within(links, rows) ==> rights_within(links.filter(p), rows),
{
    let pos = lemma_filter_positions(links, p);
    let f = links.filter(p);
    if lefts_within(links, rows) {
        assert forall|i: int| 0 <= i < f.len() implies has_id(rows, (#[trigger] f[i]).left) by {
            assert(links[pos[i]] == f[i]);
        }
    }
    if rights_within(links, rows) {
        assert forall|i: int| 0 <= i < f.len() implies has_id(rows, (#[trigger] f[i]).right) by {
            assert(links[pos[i]] == f[i]);
        }
    }
}

/// A filter leaves a pair connected exactly if it keeps a link between the two.
pub proof fn lemma_filter_has_link(links: Seq<Link>, p: spec_fn(Link) -> bool)
    ensures
        forall|l: i64, r: i64|
            #[trigger] has_link(links.filter(p), l, r) <==> exists|i: int|
                0 <= i < links.len() && (#[trigger] links[i]).left == l && links[i].right == r && p(
                    links[i],
                ),
{
    let pos = lemma_filter_positions(links, p);
    let f = links.filter(p);
    assert forall|l: i64, r: i64| #[trigger] has_link(f, l, r) <==> exists|i: int|
        0 <= i < links.len() && (#[trigger] links[i]).left == l && links[i].right == r && p(
            links[i],
        ) by {
        if has_link(f, l, r) {
            let i = choose|i: int|
                0 <= i < f.len() && (#[trigger] f[i]).left == l && f[i].right == r;
            assert(links[pos[i]] == f[i]);
        }
    }
}

/// Once row `id` and the links that mention it are gone, the links that are
/// left stay within the rows that are left.
pub proof fn lemma_within_after_delete(
    links: Seq<Link>,
    rows: Seq<NameRow>,
    id: i64,
    on_left: bool,
    on_right: bool,
)
    ensures
        on_left && lefts_within(links, rows) ==> lefts_within(
            links.filter(avoids(id, on_left, on_right)),
            rows.filter(id_is_not(id)),
        ),
        on_right && rights_within(links, rows) ==> rights_within(
            links.filter(avoids(id, on_left, on_right)),
            rows.filter(id_is_not(id)),
        ),
{
    let p = avoids(id, on_left, on_right);
    let pos = lemma_filter_positions(links, p);
    let f = links.filter(p);
    let rest = rows.filter(id_is_not(id));
    assert forall|x: i64| has_id(rows, x) && x != id implies has_id(rest, x) by {
        let i = choose|i: int| 0 <= i < rows.len() && (#[trigger] rows[i]).0 == x;
        assert(rest.contains(rows[i]));
    }
    if on_left && lefts_within(links, rows) {
        assert forall|i: int| 0 <= i < f.len() implies has_id(rest, (#[trigger] f[i]).left) by {
            assert(links[pos[i]] == f[i]);
        }
    }
    if on_right && rights_within(links, rows) {
        assert forall|i: int| 0 <= i < f.len() implies has_id(rest, (#[trigger] f[i]).right) by {
            assert(links[pos[i]] == f[i]);
        }
    }
}

/// A new name for a row keeps an entity table sorted, its names distinct and
/// its ids what they were.
pub proof fn lemma_rename_row(rows: Seq<NameRow>, id: i64, name: Seq<char>)
    requires
        names_sorted(rows),
        names_distinct(rows),
        rename_row(rows, id, name) is Ok,
    ensures
        names_sorted(rename_row(rows, id, name)->Ok_0),
        names_distinct(rename_row(rows, id, name)->Ok_0),
        forall|x: i64| has_id(rows, x) <==> has_id(rename_row(rows, id, name)->Ok_0, x),
{
    let i = first_index(rows, id_is(id))->Some_0;
    let out = rows.update(i, (id, name));
    assert forall|x: i64| has_id(rows, x) <==> has_id(out, x) by {
        if has_id(rows, x) {
            let k = choose|k: int| 0 <= k < rows.len() && (#[trigger] rows[k]).0 == x;
            assert(out[k].0 == x);
        }
    }
}

/// Rows attached to a relation table keep it sorted and its pairs distinct,
/// where the rows are sorted and none of them was connected yet.
pub proof fn lemma_attach(links: Seq<Link>, left: i64, rows: Seq<NameRow>)
    requires
        links_sorted(links),
        pairs_distinct(links),
        names_sorted(rows),
        forall|k: int| 0 <= k < rows.len() ==> !has_link(links, left, (#[trigger] rows[k]).0),
        rows.len() > 0 ==> next_link_id(links) + rows.len() - 1 <= i64::MAX,
    ensures
        links_sorted(attach(links, left, rows)),
        pairs_distinct(attach(links, left, rows)),
        forall|l: i64, r: i64|
            #[trigger] has_link(attach(links, left, rows), l, r) <==> has_link(links, l, r) || (l
                == left && has_id(rows, r)),
        forall|table: Seq<NameRow>|
            lefts_within(links, table) && has_id(table, left) ==> #[trigger] lefts_within(
                attach(links, left, rows),
                table,
            ),
        forall|table: Seq<NameRow>|
            rights_within(links, table) && (forall|x: i64| has_id(rows, x) ==> has_id(table, x))
                ==> #[trigger] rights_within(attach(links, left, rows), table),
{
    let out = attach(links, left, rows);
    let n = links.len() as int;
    assert forall|l: i64, r: i64| #[trigger] has_link(out, l, r) <==> has_link(links, l, r) || (l
        == left && has_id(rows, r)) by {
        if has_link(links, l, r) {
            let i = choose|i: int|
                0 <= i < links.len() && (#[trigger] links[i]).left == l && links[i].right == r;
            assert(out[i] == links[i]);
        }
        if l == left && has_id(rows, r) {
            let k = choose|k: int| 0 <= k < rows.len() && (#[trigger] rows[k]).0 == r;
            assert(out[n + k].right == r);
        }
    }
}

/// Taking links away by a filter makes no cycle.
pub proof fn lemma_filter_acyclic(links: Seq<Link>, p: spec_fn(Link) -> bool)
    requires
        acyclic(links),
    ensures
        acyclic(links.filter(p)),
{
    lemma_filter_has_link(links, p);
    lemma_acyclic_mono(links.filter(p), links);
}

impl State {
    /// Creating a tag, an item or a namespace keeps the store consistent.
    pub proof fn lemma_create_wf(self, name: Seq<char>)
        requires
            self.wf(),
        ensures
            self.create_tag(name) is Ok ==> self.create_tag(name)->Ok_0.0.wf(),
            self.create_item(name) is Ok ==> self.create_item(name)->Ok_0.0.wf(),
            self.create_namespace(name) is Ok ==> self.create_namespace(name)->Ok_0.0.wf(),
    {
        if self.create_tag(name) is Ok {
            lemma_add_name(self.tags, name);
        }
        if self.create_item(name) is Ok {
            lemma_add_name(self.images, name);
        }
        if self.create_namespace(name) is Ok {
            lemma_add_name(self.namespaces, name);
        }
    }

    /// Deleting a tag, an item or a namespace, each with what hangs on it,
    /// keeps the store consistent.
    pub proof fn lemma_delete_wf(self, id: i64)
        requires
            self.wf(),
        ensures
            self.without_tag(id).wf(),
            self.without_item(id).wf(),
            self.without_namespace(id).wf(),
    {
        lemma_filter_names(self.tags, id_is_not(id));
        lemma_filter_names(self.images, id_is_not(id));
        lemma_filter_names(self.namespaces, id_is_not(id));
        // without the tag
        lemma_filter_links(self.namespace_map, avoids(id, false, true));
        lemma_filter_links(self.subtag_map, avoids(id, true, true));
        lemma_filter_links(self.tag_map, avoids(id, false, true));
        lemma_within_filter(self.namespace_map, avoids(id, false, true), self.namespaces);
        lemma_within_filter(self.tag_map, avoids(id, false, true), self.images);
        lemma_within_after_delete(self.namespace_map, self.tags, id, false, true);
        lemma_within_after_delete(self.subtag_map, self.tags, id, true, true);
        lemma_within_after_delete(self.tag_map, self.tags, id, false, true);
        lemma_filter_acyclic(self.subtag_map, avoids(id, true, true));
        // without the item
        lemma_filter_links(self.tag_map, avoids(id, true, false));
        lemma_within_filter(self.tag_map, avoids(id, true, false), self.tags);
        lemma_within_after_delete(self.tag_map, self.images, id, true, false);
        // without the namespace
        lemma_filter_links(self.namespace_map, avoids(id, true, false));
        lemma_within_filter(self.namespace_map, avoids(id, true, false), self.tags);
        lemma_within_after_delete(self.namespace_map, self.namespaces, id, true, false);
    }

    /// Deleting a row from a table keeps the store consistent.
    pub proof fn lemma_delete_row_wf(self, table: Table, id: i64)
        requires
            self.wf(),
            self.delete(table, id) is Ok,
        ensures
            self.delete(table, id)->Ok_0.wf(),
    {
        self.lemma_delete_wf(id);
        let p = link_id_is_not(id);
        lemma_filter_links(self.namespace_map, p);
        lemma_within_filter(self.namespace_map, p, self.tags);
        lemma_within_filter(self.namespace_map, p, self.namespaces);
        lemma_filter_links(self.subtag_map, p);
        lemma_within_filter(self.subtag_map, p, self.tags);
        lemma_filter_acyclic(self.subtag_map, p);
        lemma_filter_links(self.tag_map, p);
        lemma_within_filter(self.tag_map, p, self.tags);
        lemma_within_filter(self.tag_map, p, self.images);
    }

    /// Taking the link between two tags away, whichever way it leads, keeps
    /// the store consistent.
    pub proof fn lemma_without_connection_wf(self, a: i64, b: i64)
        requires
            self.wf(),
        ensures
            self.without_connection(a, b).wf(),
    {
        let once = self.subtag_map.filter(link_is_not(a, b));
        lemma_filter_links(self.subtag_map, link_is_not(a, b));
        lemma_within_filter(self.subtag_map, link_is_not(a, b), self.tags);
        lemma_filter_acyclic(self.subtag_map, link_is_not(a, b));
        lemma_filter_links(once, link_is_not(b, a));
        lemma_within_filter(once, link_is_not(b, a), self.tags);
        lemma_filter_acyclic(once, link_is_not(b, a));
    }

    /// Once a tag of the list was not there, the tags behind it change
    /// nothing.
    pub proof fn lemma_delete_tags_stops(self, ids: Seq<i64>, k: int)
        requires
            0 <= k <= ids.len(),
            !self.delete_tags(ids.take(k)).1,
        ensures
            self.delete_tags(ids) == self.delete_tags(ids.take(k)),
        decreases ids.len() - k,
    {
        if k == ids.len() {
            assert(ids.take(k) =~= ids);
        } else {
            assert(ids.take(k + 1).drop_last() =~= ids.take(k));
            self.lemma_delete_tags_stops(ids, k + 1);
        }
    }

    /// Renaming a tag, an item or a namespace keeps the store consistent.
    pub proof fn lemma_rename_wf(self, id: i64, name: Seq<char>)
        requires
            self.wf(),
        ensures
            self.rename_tag(id, name) is Ok ==> self.rename_tag(id, name)->Ok_0.wf(),
            self.update_path(id, name) is Ok ==> self.update_path(id, name)->Ok_0.wf(),
            self.rename_namespace(id, name) is Ok ==> self.rename_namespace(id, name)->Ok_0.wf(),
    {
        if self.rename_tag(id, name) is Ok {
            lemma_rename_row(self.tags, id, name);
        }
        if self.update_path(id, name) is Ok {
            lemma_rename_row(self.images, id, name);
        }
        if self.rename_namespace(id, name) is Ok {
            lemma_rename_row(self.namespaces, id, name);
        }
    }

    /// A link that the hierarchy takes keeps the store consistent: no cycle
    /// comes of it.
    pub proof fn lemma_add_hierarchy_edge_wf(self, parent: i64, child: i64)
        requires
            self.wf(),
            self.add_hierarchy_edge(parent, child) is Ok,
        ensures
            self.add_hierarchy_edge(parent, child)->Ok_0.wf(),
    {
        lemma_acyclic_push(
            self.subtag_map,
            Link { id: next_link_id(self.subtag_map) as i64, left: parent, right: child },
        );
    }

    /// Taking a link out of the hierarchy keeps the store consistent.
    pub proof fn lemma_remove_hierarchy_edge_wf(self, parent: i64, child: i64)
        requires
            self.wf(),
            self.remove_hierarchy_edge(parent, child) is Ok,
        ensures
            self.remove_hierarchy_edge(parent, child)->Ok_0.wf(),
    {
        lemma_filter_links(self.subtag_map, link_is_not(parent, child));
        lemma_within_filter(self.subtag_map, link_is_not(parent, child), self.tags);
        lemma_filter_acyclic(self.subtag_map, link_is_not(parent, child));
    }

    /// The rows that an assignment adds are rows of the tag table that the
    /// item does not have, each once.
    pub proof fn lemma_missing(self, item: i64, tag: i64)
        requires
            names_sorted(self.tags),
        ensures
            names_sorted(self.missing(item, tag)),
            forall|k: int|
                0 <= k < self.missing(item, tag).len() ==> !has_link(
                    self.tag_map,
                    item,
                    (#[trigger] self.missing(item, tag)[k]).0,
                ),
            forall|x: i64|
                has_id(self.missing(item, tag), x) <==> has_id(self.tags, x) && (x == tag
                    || is_ancestor(self.subtag_map, x, tag)) && !has_link(self.tag_map, item, x),
    {
        let p = is_missing(self.subtag_map, self.tag_map, item, tag);
        let rows = self.missing(item, tag);
        lemma_filter_names(self.tags, p);
        let pos = lemma_filter_positions(self.tags, p);
        assert forall|x: i64|
            has_id(rows, x) <==> has_id(self.tags, x) && (x == tag || is_ancestor(
                self.subtag_map,
                x,
                tag,
            )) && !has_link(self.tag_map, item, x) by {
            if has_id(rows, x) {
                let k = choose|k: int| 0 <= k < rows.len() && (#[trigger] rows[k]).0 == x;
                assert(self.tags[pos[k]] == rows[k]);
            }
        }
    }

    /// Assigning a tag keeps the store consistent.
    pub proof fn lemma_assign_wf(self, item: i64, name: Seq<char>, create: bool)
        requires
            self.wf(),
            self.assign(item, name, create) is Ok,
        ensures
            self.assign(item, name, create)->Ok_0.wf(),
    {
        match id_of(self.tags, name) {
            Some(tag) => {
                self.lemma_with_assigned_wf(item, tag);
            },
            None => {
                self.lemma_create_wf(name);
                let s = State { tags: with_name(self.tags, name), ..self };
                s.lemma_with_assigned_wf(item, next_name_id(self.tags) as i64);
            },
        }
    }

    /// A tag that was just created has no ancestors and no item: assigning
    /// it adds its own row and no other.
    pub proof fn lemma_missing_of_new_tag(self, item: i64, name: Seq<char>)
        requires
            self.wf(),
            self.create_tag(name) is Ok,
        ensures
            self.create_tag(name)->Ok_0.0.missing(item, self.create_tag(name)->Ok_0.1) == seq![
                (self.create_tag(name)->Ok_0.1, name),
            ],
    {
        let tag = next_name_id(self.tags) as i64;
        let s = self.create_tag(name)->Ok_0.0;
        let p = is_missing(s.subtag_map, s.tag_map, item, tag);
        let fresh = (tag, name);
        let pos = lemma_filter_positions(self.tags, p);
        if pos.len() > 0 {
            let r = self.tags.filter(p)[0];
            assert(self.tags[pos[0]] == r);
        }
        self.tags.lemma_filter_push(fresh, p);
    }

    /// Attaching a tag and its ancestors to an item keeps the store consistent.
    pub proof fn lemma_with_assigned_wf(self, item: i64, tag: i64)
        requires
            self.wf(),
            has_id(self.images, item),
            self.with_assigned(item, tag) is Ok,
        ensures
            self.with_assigned(item, tag)->Ok_0.wf(),
    {
        self.lemma_missing(item, tag);
    }

    /// Taking an assignment away keeps the store consistent.
    pub proof fn lemma_unassign_wf(self, tag: i64, item: i64)
        requires
            self.wf(),
            self.unassign(tag, item) is Ok,
        ensures
            self.unassign(tag, item)->Ok_0.wf(),
    {
        lemma_filter_links(self.tag_map, link_is_not(item, tag));
        lemma_within_filter(self.tag_map, link_is_not(item, tag), self.tags);
        lemma_within_filter(self.tag_map, link_is_not(item, tag), self.images);
    }

    /// Putting a tag into a namespace, or taking it out, keeps the store
    /// consistent.
    pub proof fn lemma_namespace_wf(self, tag: i64, namespace: i64)
        requires
            self.wf(),
        ensures
            self.set_namespace(tag, namespace) is Ok ==> self.set_namespace(
                tag,
                namespace,
            )->Ok_0.wf(),
            self.clear_namespace(tag) is Ok ==> self.clear_namespace(tag)->Ok_0.wf(),
    {
        lemma_filter_links(self.namespace_map, avoids(tag, false, true));
        lemma_within_filter(self.namespace_map, avoids(tag, false, true), self.tags);
        lemma_within_filter(self.namespace_map, avoids(tag, false, true), self.namespaces);
    }
}

} // verus!
