//! The store: the six tables in memory, and the operations on them.

use crate::graph::{holds, is_ancestor, is_descendant, reachable_from};
use crate::load::Tables;
use crate::model::{
    is_missing, missing_among, resolve, settles, yields, AssignError, HierarchyError, State,
    StoreError, Table,
};
use crate::predicate::Condition;
use crate::rows::{has_id, has_link, id_of, lemma_filter_same, name_of, next_link_id, Link, NameRow};
use crate::tables::{
    copy_links, copy_names, find_id, find_name, find_right, first_fitting_link, first_fitting_name,
    insert_name, link_exists, link_id_exists, next_id_of_links, next_id_of_names, rename, select,
    without, without_id, Pick, Removal,
};
use crate::text::{split_words, words_of};
use vstd::prelude::*;

verus! {

/// The six tables. Every row is reached through the operations only, which
/// keep the tables consistent with one another.
pub struct Store {
    tags: Vec<(i64, String)>,
    namespaces: Vec<(i64, String)>,
    images: Vec<(i64, String)>,
    namespace_map: Vec<Link>,
    subtag_map: Vec<Link>,
    tag_map: Vec<Link>,
}

impl View for Store {
    type V = State;

    closed spec fn view(&self) -> State {
        State {
            tags: self.tags.deep_view(),
            namespaces: self.namespaces.deep_view(),
            images: self.images.deep_view(),
            namespace_map: self.namespace_map@,
            subtag_map: self.subtag_map@,
            tag_map: self.tag_map@,
        }
    }
}

impl Store {
    /// The store is consistent: see [`State::wf`].
    pub open spec fn wf(&self) -> bool {
        self@.wf()
    }

    /// A store without any row.
    pub fn new() -> (s: Store)
        ensures
            s@ == State::empty(),
            s.wf(),
    {
        let s = Store {
            tags: Vec::new(),
            namespaces: Vec::new(),
            images: Vec::new(),
            namespace_map: Vec::new(),
            subtag_map: Vec::new(),
            tag_map: Vec::new(),
        };
        proof {
            assert(s.tags.deep_view() =~= Seq::<NameRow>::empty());
            assert(s.namespaces.deep_view() =~= Seq::<NameRow>::empty());
            assert(s.images.deep_view() =~= Seq::<NameRow>::empty());
        }
        s
    }

    /// The store that holds the rows of `tables`, where they are consistent
    /// with one another; nothing where they are not.
    pub fn load(tables: Tables) -> (r: Option<Store>)
        ensures
            r is Some <==> tables@.wf(),
            r is Some ==> r->Some_0@ == tables@ && r->Some_0.wf(),
    {
        if tables.check() {
            Some(
                Store {
                    tags: tables.tags,
                    namespaces: tables.namespaces,
                    images: tables.images,
                    namespace_map: tables.namespace_map,
                    subtag_map: tables.subtag_map,
                    tag_map: tables.tag_map,
                },
            )
        } else {
            None
        }
    }

    /// A copy of the rows of the store as plain tables.
    pub fn tables(&self) -> (tables: Tables)
        ensures
            tables@ == self@,
    {
        Tables {
            tags: copy_names(&self.tags),
            namespaces: copy_names(&self.namespaces),
            images: copy_names(&self.images),
            namespace_map: copy_links(&self.namespace_map),
            subtag_map: copy_links(&self.subtag_map),
            tag_map: copy_links(&self.tag_map),
        }
    }

    /// The rows of the store as plain tables.
    pub fn dump(self) -> (tables: Tables)
        ensures
            tables@ == self@,
    {
        Tables {
            tags: self.tags,
            namespaces: self.namespaces,
            images: self.images,
            namespace_map: self.namespace_map,
            subtag_map: self.subtag_map,
            tag_map: self.tag_map,
        }
    }

    /// Creates a tag named `name` and returns its id. Refused where a tag has
    /// that name already.
    pub fn create_tag(&mut self, name: &str) -> (r: Result<i64, StoreError>)
        requires
            old(self).wf(),
        ensures
            final(self).wf(),
            yields(old(self)@.create_tag(name@), old(self)@, final(self)@, r),
    {
        proof {
            self@.lemma_create_wf(name@);
        }
        insert_name(&mut self.tags, name)
    }

    /// Creates an item with the path `path` and returns its id. Refused where
    /// an item has that path already.
    pub fn create_item(&mut self, path: &str) -> (r: Result<i64, StoreError>)
        requires
            old(self).wf(),
        ensures
            final(self).wf(),
            yields(old(self)@.create_item(path@), old(self)@, final(self)@, r),
    {
        proof {
            self@.lemma_create_wf(path@);
        }
        insert_name(&mut self.images, path)
    }

    /// Creates a namespace named `name` and returns its id. Refused where a
    /// namespace has that name already.
    pub fn create_namespace(&mut self, name: &str) -> (r: Result<i64, StoreError>)
        requires
            old(self).wf(),
        ensures
            final(self).wf(),
            yields(old(self)@.create_namespace(name@), old(self)@, final(self)@, r),
    {
        proof {
            self@.lemma_create_wf(name@);
        }
        insert_name(&mut self.namespaces, name)
    }

    /// Deletes tag `id`, and with it its links in the hierarchy, its place in
    /// a namespace and its assignments to items.
    pub fn delete_tag(&mut self, id: i64) -> (r: Result<(), StoreError>)
        requires
            old(self).wf(),
        ensures
            final(self).wf(),
            settles(old(self)@.delete_tag(id), old(self)@, final(self)@, r),
    {
        if find_id(&self.tags, id).is_none() {
            return Err(StoreError::NotFound);
        }
        proof {
            self@.lemma_delete_wf(id);
        }
        self.tags = without_id(&self.tags, id);
        self.namespace_map = without(
            &self.namespace_map,
            &Removal::Touching { key: id, on_left: false, on_right: true },
        );
        self.subtag_map = without(
            &self.subtag_map,
            &Removal::Touching { key: id, on_left: true, on_right: true },
        );
        self.tag_map = without(
            &self.tag_map,
            &Removal::Touching { key: id, on_left: false, on_right: true },
        );
        Ok(())
    }

    /// Deletes item `id` and its assignments.
    pub fn delete_item(&mut self, id: i64) -> (r: Result<(), StoreError>)
        requires
            old(self).wf(),
        ensures
            final(self).wf(),
            settles(old(self)@.delete_item(id), old(self)@, final(self)@, r),
    {
        if find_id(&self.images, id).is_none() {
            return Err(StoreError::NotFound);
        }
        proof {
            self@.lemma_delete_wf(id);
        }
        self.images = without_id(&self.images, id);
        self.tag_map = without(
            &self.tag_map,
            &Removal::Touching { key: id, on_left: true, on_right: false },
        );
        Ok(())
    }

    /// Deletes the item at `path` and its assignments.
    pub fn delete_item_by_path(&mut self, path: &str) -> (r: Result<(), StoreError>)
        requires
            old(self).wf(),
        ensures
            final(self).wf(),
            settles(old(self)@.delete_item_by_path(path@), old(self)@, final(self)@, r),
    {
        match find_name(&self.images, path) {
            None => Err(StoreError::NotFound),
            Some(i) => {
                let id: i64 = self.images[i].0;
                proof {
                    self@.lemma_delete_wf(id);
                }
                self.images = without_id(&self.images, id);
                self.tag_map = without(
                    &self.tag_map,
                    &Removal::Touching { key: id, on_left: true, on_right: false },
                );
                Ok(())
            },
        }
    }

    /// Deletes namespace `id`. Its tags stay, without a namespace.
    pub fn delete_namespace(&mut self, id: i64) -> (r: Result<(), StoreError>)
        requires
            old(self).wf(),
        ensures
            final(self).wf(),
            settles(old(self)@.delete_namespace(id), old(self)@, final(self)@, r),
    {
        if find_id(&self.namespaces, id).is_none() {
            return Err(StoreError::NotFound);
        }
        proof {
            self@.lemma_delete_wf(id);
        }
        self.namespaces = without_id(&self.namespaces, id);
        self.namespace_map = without(
            &self.namespace_map,
            &Removal::Touching { key: id, on_left: true, on_right: false },
        );
        Ok(())
    }

    /// Gives tag `id` the name `name`. Refused where there is no such tag, or
    /// another tag has the name.
    pub fn rename_tag(&mut self, id: i64, name: &str) -> (r: Result<(), StoreError>)
        requires
            old(self).wf(),
        ensures
            final(self).wf(),
            settles(old(self)@.rename_tag(id, name@), old(self)@, final(self)@, r),
    {
        proof {
            self@.lemma_rename_wf(id, name@);
        }
        rename(&mut self.tags, id, name)
    }

    /// Gives namespace `id` the name `name`. Refused where there is no such
    /// namespace, or another namespace has the name.
    pub fn rename_namespace(&mut self, id: i64, name: &str) -> (r: Result<(), StoreError>)
        requires
            old(self).wf(),
        ensures
            final(self).wf(),
            settles(old(self)@.rename_namespace(id, name@), old(self)@, final(self)@, r),
    {
        proof {
            self@.lemma_rename_wf(id, name@);
        }
        rename(&mut self.namespaces, id, name)
    }

    /// Gives item `id` the path `path`. Refused where there is no such item,
    /// or another item has the path.
    pub fn update_path(&mut self, id: i64, path: &str) -> (r: Result<(), StoreError>)
        requires
            old(self).wf(),
        ensures
            final(self).wf(),
            settles(old(self)@.update_path(id, path@), old(self)@, final(self)@, r),
    {
        proof {
            self@.lemma_rename_wf(id, path@);
        }
        rename(&mut self.images, id, path)
    }

    /// Gives the row with the id `id` of `table` the name, or the path,
    /// `name`. Refused where there is no such row, where another row of the
    /// table has the name, and for a relation table, whose rows have no name.
    pub fn rename(&mut self, table: Table, id: i64, name: &str) -> (r: Result<(), StoreError>)
        requires
            old(self).wf(),
        ensures
            final(self).wf(),
            settles(old(self)@.rename(table, id, name@), old(self)@, final(self)@, r),
    {
        match table {
            Table::Tags => self.rename_tag(id, name),
            Table::Namespaces => self.rename_namespace(id, name),
            Table::Images => self.update_path(id, name),
            _ => Err(StoreError::NotFound),
        }
    }

    /// Makes `parent` a direct parent of `child`. Refused where one of the two
    /// does not exist, where the link is there already, and where it would
    /// close a cycle: where `child` is `parent` itself or one of its ancestors.
    pub fn add_hierarchy_edge(&mut self, parent: i64, child: i64) -> (r: Result<
        (),
        HierarchyError,
    >)
        requires
            old(self).wf(),
        ensures
            final(self).wf(),
            settles(
                old(self)@.add_hierarchy_edge(parent, child),
                old(self)@,
                final(self)@,
                r,
            ),
    {
        if find_id(&self.tags, parent).is_none() || find_id(&self.tags, child).is_none() {
            return Err(HierarchyError::UnknownTag);
        }
        if link_exists(&self.subtag_map, parent, child) {
            return Err(HierarchyError::DuplicateEdge);
        }
        if parent == child {
            return Err(HierarchyError::WouldCreateCycle);
        }
        let above = reachable_from(&self.subtag_map, true, parent);
        if holds(&above, child) {
            return Err(HierarchyError::WouldCreateCycle);
        }
        match next_id_of_links(&self.subtag_map) {
            None => Err(HierarchyError::Full),
            Some(id) => {
                proof {
                    self@.lemma_add_hierarchy_edge_wf(parent, child);
                }
                self.subtag_map.push(Link { id, left: parent, right: child });
                Ok(())
            },
        }
    }

    /// Takes the link from `parent` to `child` out of the hierarchy. What
    /// items are tagged with stays as it is.
    pub fn remove_hierarchy_edge(&mut self, parent: i64, child: i64) -> (r: Result<
        (),
        StoreError,
    >)
        requires
            old(self).wf(),
        ensures
            final(self).wf(),
            settles(
                old(self)@.remove_hierarchy_edge(parent, child),
                old(self)@,
                final(self)@,
                r,
            ),
    {
        if !link_exists(&self.subtag_map, parent, child) {
            return Err(StoreError::NotFound);
        }
        proof {
            self@.lemma_remove_hierarchy_edge_wf(parent, child);
        }
        self.subtag_map = without(&self.subtag_map, &Removal::Pair { left: parent, right: child });
        Ok(())
    }

    /// Whether `parent` is a direct parent of `child`.
    pub fn has_edge(&self, parent: i64, child: i64) -> (r: bool)
        ensures
            r == has_link(self@.subtag_map, parent, child),
    {
        link_exists(&self.subtag_map, parent, child)
    }

    /// The ancestors of `tag`: its parents, their parents, and so on, each
    /// once.
    pub fn ancestors(&self, tag: i64) -> (r: Vec<i64>)
        ensures
            r@.no_duplicates(),
            forall|a: i64| r@.contains(a) <==> is_ancestor(self@.subtag_map, a, tag),
    {
        reachable_from(&self.subtag_map, true, tag)
    }

    /// The descendants of `tag`: its children, their children, and so on,
    /// each once.
    pub fn descendants(&self, tag: i64) -> (r: Vec<i64>)
        ensures
            r@.no_duplicates(),
            forall|d: i64| r@.contains(d) <==> is_descendant(self@.subtag_map, d, tag),
    {
        reachable_from(&self.subtag_map, false, tag)
    }

    /// Gives `item` the tag `tag` and every ancestor of it that the item does
    /// not have yet.
    fn attach_missing(&mut self, item: i64, tag: i64) -> (r: Result<(), AssignError>)
        requires
            old(self).wf(),
            has_id(old(self)@.images, item),
        ensures
            final(self).wf(),
            settles(old(self)@.with_assigned(item, tag), old(self)@, final(self)@, r),
    {
        let above = reachable_from(&self.subtag_map, true, tag);
        let rows = select(
            &self.tags,
            &Pick::Missing { held: &self.tag_map, item, tag, above: &above },
        );
        proof {
            let view = self@.tags;
            let p = missing_among(above@, self@.tag_map, item, tag);
            let q = is_missing(self@.subtag_map, self@.tag_map, item, tag);
            lemma_filter_same(view, p, q);
            if self@.with_assigned(item, tag) is Ok {
                self@.lemma_with_assigned_wf(item, tag);
            }
        }
        let n: usize = rows.len();
        if n == 0 {
            return Ok(());
        }
        let first: i64 = match next_id_of_links(&self.tag_map) {
            None => {
                return Err(AssignError::Full);
            },
            Some(id) => id,
        };
        if first as i128 + n as i128 - 1 > i64::MAX as i128 {
            return Err(AssignError::Full);
        }
        let mut fresh: Vec<Link> = Vec::new();
        let mut id: i64 = first;
        let mut k: usize = 0;
        while k < n
            invariant
                k <= n,
                n == rows@.len(),
                first + n - 1 <= i64::MAX,
                k < n ==> id == first + k,
                fresh@.len() == k,
                forall|j: int|
                    0 <= j < k ==> (#[trigger] fresh@[j]) == (Link {
                        id: (first + j) as i64,
                        left: item,
                        right: rows@[j].0,
                    }),
            decreases n - k,
        {
            fresh.push(Link { id, left: item, right: rows[k].0 });
            k += 1;
            if k < n {
                id += 1;
            }
        }
        proof {
            let added = Seq::new(
                rows.deep_view().len(),
                |j: int|
                    Link {
                        id: (next_link_id(self@.tag_map) + j) as i64,
                        left: item,
                        right: rows.deep_view()[j].0,
                    },
            );
            assert(fresh@ =~= added);
        }
        self.tag_map.append(&mut fresh);
        Ok(())
    }

    /// Assigns the tag named `name` to `item`, and with it every ancestor of
    /// the tag. A tag that the item has already stays as it is, so the call
    /// may be repeated. Where no tag has the name, one is created first if
    /// `create_if_missing` says so; otherwise the call is refused. It is
    /// refused too where there is no such item.
    pub fn assign(&mut self, item: i64, name: &str, create_if_missing: bool) -> (r: Result<
        (),
        AssignError,
    >)
        requires
            old(self).wf(),
        ensures
            final(self).wf(),
            settles(
                old(self)@.assign(item, name@, create_if_missing),
                old(self)@,
                final(self)@,
                r,
            ),
    {
        if find_id(&self.images, item).is_none() {
            return Err(AssignError::UnknownItem);
        }
        match find_name(&self.tags, name) {
            Some(i) => {
                let tag: i64 = self.tags[i].0;
                self.attach_missing(item, tag)
            },
            None => {
                if !create_if_missing {
                    return Err(AssignError::UnknownTag);
                }
                let tag: i64 = match next_id_of_names(&self.tags) {
                    None => {
                        return Err(AssignError::Full);
                    },
                    Some(id) => id,
                };
                proof {
                    self@.lemma_missing_of_new_tag(item, name@);
                    if self@.assign(item, name@, create_if_missing) is Ok {
                        self@.lemma_assign_wf(item, name@, create_if_missing);
                    }
                }
                let link: i64 = match next_id_of_links(&self.tag_map) {
                    None => {
                        return Err(AssignError::Full);
                    },
                    Some(id) => id,
                };
                let ghost before = self.tags.deep_view();
                self.tags.push((tag, name.to_owned()));
                self.tag_map.push(Link { id: link, left: item, right: tag });
                proof {
                    assert(self.tags.deep_view() =~= before.push((tag, name@)));
                    let model = old(self)@.assign(item, name@, create_if_missing)->Ok_0;
                    assert(model.tag_map =~= self@.tag_map);
                }
                Ok(())
            },
        }
    }

    /// Takes `tag` from `item`: this one assignment and no other, so the
    /// ancestors that came with it stay.
    pub fn unassign(&mut self, tag: i64, item: i64) -> (r: Result<(), StoreError>)
        requires
            old(self).wf(),
        ensures
            final(self).wf(),
            settles(old(self)@.unassign(tag, item), old(self)@, final(self)@, r),
    {
        if !link_exists(&self.tag_map, item, tag) {
            return Err(StoreError::NotFound);
        }
        proof {
            self@.lemma_unassign_wf(tag, item);
        }
        self.tag_map = without(&self.tag_map, &Removal::Pair { left: item, right: tag });
        Ok(())
    }

    /// Puts `tag` into `namespace`. Refused where one of the two does not
    /// exist, and where the tag is in a namespace already.
    pub fn set_namespace(&mut self, tag: i64, namespace: i64) -> (r: Result<(), StoreError>)
        requires
            old(self).wf(),
        ensures
            final(self).wf(),
            settles(old(self)@.set_namespace(tag, namespace), old(self)@, final(self)@, r),
    {
        if find_id(&self.tags, tag).is_none() || find_id(&self.namespaces, namespace).is_none() {
            return Err(StoreError::NotFound);
        }
        if find_right(&self.namespace_map, tag).is_some() {
            return Err(StoreError::UniqueViolation);
        }
        match next_id_of_links(&self.namespace_map) {
            None => Err(StoreError::Full),
            Some(id) => {
                self.namespace_map.push(Link { id, left: namespace, right: tag });
                Ok(())
            },
        }
    }

    /// Takes `tag` out of its namespace. Refused where it is in none.
    pub fn clear_namespace(&mut self, tag: i64) -> (r: Result<(), StoreError>)
        requires
            old(self).wf(),
        ensures
            final(self).wf(),
            settles(old(self)@.clear_namespace(tag), old(self)@, final(self)@, r),
    {
        if find_right(&self.namespace_map, tag).is_none() {
            return Err(StoreError::NotFound);
        }
        proof {
            self@.lemma_namespace_wf(tag, 0);
        }
        self.namespace_map = without(
            &self.namespace_map,
            &Removal::Touching { key: tag, on_left: false, on_right: true },
        );
        Ok(())
    }

    /// The namespace that `tag` is in.
    pub fn namespace_of_tag(&self, tag: i64) -> (r: Option<i64>)
        ensures
            r == self@.namespace_of_tag(tag),
    {
        match find_right(&self.namespace_map, tag) {
            Some(i) => Some(self.namespace_map[i].left),
            None => None,
        }
    }

    /// The tags of `item` with their names, in the order of the tag table.
    pub fn tags_of_item(&self, item: i64) -> (r: Vec<(i64, String)>)
        ensures
            r.deep_view() == self@.tags_of_item(item),
    {
        select(&self.tags, &Pick::LinkedFrom { links: &self.tag_map, left: item })
    }

    /// The items that have `tag` with their paths, in the order of the item
    /// table.
    pub fn items_with_tag(&self, tag: i64) -> (r: Vec<(i64, String)>)
        ensures
            r.deep_view() == self@.items_with_tag(tag),
    {
        select(&self.images, &Pick::LinkedTo { links: &self.tag_map, right: tag })
    }

    /// The tags in `namespace` with their names, in the order of the tag
    /// table.
    pub fn tags_in_namespace(&self, namespace: i64) -> (r: Vec<(i64, String)>)
        ensures
            r.deep_view() == self@.tags_in_namespace(namespace),
    {
        select(&self.tags, &Pick::LinkedFrom { links: &self.namespace_map, left: namespace })
    }

    /// The tags that no item has.
    pub fn orphan_tags(&self) -> (r: Vec<(i64, String)>)
        ensures
            r.deep_view() == self@.orphan_tags(),
    {
        select(&self.tags, &Pick::EndsNothing { links: &self.tag_map })
    }

    /// The namespaces that hold no tag.
    pub fn orphan_namespaces(&self) -> (r: Vec<(i64, String)>)
        ensures
            r.deep_view() == self@.orphan_namespaces(),
    {
        select(&self.namespaces, &Pick::StartsNothing { links: &self.namespace_map })
    }

    /// The items without a tag.
    pub fn orphan_items(&self) -> (r: Vec<(i64, String)>)
        ensures
            r.deep_view() == self@.orphan_items(),
    {
        select(&self.images, &Pick::StartsNothing { links: &self.tag_map })
    }

    /// The ids of the tags that the words of `query` name, in the order of
    /// the words. A word that names no tag is passed over.
    pub fn compile(&self, query: &str) -> (r: Vec<i64>)
        ensures
            r@ == resolve(self@.tags, words_of(query@)),
    {
        let words = split_words(query);
        let ghost all = words.deep_view();
        let mut ids: Vec<i64> = Vec::new();
        let mut k: usize = 0;
        while k < words.len()
            invariant
                k <= words@.len(),
                all == words.deep_view(),
                ids@ == resolve(self@.tags, all.take(k as int)),
            decreases words@.len() - k,
        {
            proof {
                assert(all.take(k + 1).drop_last() =~= all.take(k as int));
            }
            match find_name(&self.tags, words[k].as_str()) {
                Some(i) => {
                    ids.push(self.tags[i].0);
                },
                None => {},
            }
            k += 1;
        }
        proof {
            all.lemma_take_len();
        }
        ids
    }

    /// The items that have every one of `tags`, in the order of the item
    /// table: all items where `tags` is empty.
    pub fn run(&self, tags: &Vec<i64>) -> (r: Vec<(i64, String)>)
        ensures
            r.deep_view() == self@.items_with_all(tags@),
    {
        select(&self.images, &Pick::HasAll { links: &self.tag_map, tags })
    }

    /// Answers a query: the items that have every tag that a word of `query`
    /// names. Words are separated by white space; a word that names no tag is
    /// passed over; where no word names a tag, every item is returned.
    pub fn compile_and_run(&self, query: &str) -> (r: Vec<(i64, String)>)
        ensures
            r.deep_view() == self@.compile_and_run(query@),
    {
        let ids = self.compile(query);
        self.run(&ids)
    }

    /// The tags whose name holds `part`, letters compared without regard to
    /// ASCII case; none where `part` is empty.
    pub fn search_tags(&self, part: &str) -> (r: Vec<(i64, String)>)
        ensures
            r.deep_view() == self@.search_tags(part@),
    {
        if part.unicode_len() == 0 {
            let none: Vec<(i64, String)> = Vec::new();
            return none;
        }
        select(&self.tags, &Pick::NameHolds { part })
    }

    /// Deletes the row with the id `id` from `table`. With a tag, an item or
    /// a namespace goes what hangs on it; a row of a relation table goes alone.
    pub fn delete(&mut self, table: Table, id: i64) -> (r: Result<(), StoreError>)
        requires
            old(self).wf(),
        ensures
            final(self).wf(),
            settles(old(self)@.delete(table, id), old(self)@, final(self)@, r),
    {
        proof {
            if self@.delete(table, id) is Ok {
                self@.lemma_delete_row_wf(table, id);
            }
        }
        match table {
            Table::Tags => self.delete_tag(id),
            Table::Namespaces => self.delete_namespace(id),
            Table::Images => self.delete_item(id),
            Table::NamespaceMap => {
                if !link_id_exists(&self.namespace_map, id) {
                    return Err(StoreError::NotFound);
                }
                self.namespace_map = without(&self.namespace_map, &Removal::Row { id });
                Ok(())
            },
            Table::SubtagMap => {
                if !link_id_exists(&self.subtag_map, id) {
                    return Err(StoreError::NotFound);
                }
                self.subtag_map = without(&self.subtag_map, &Removal::Row { id });
                Ok(())
            },
            Table::TagMap => {
                if !link_id_exists(&self.tag_map, id) {
                    return Err(StoreError::NotFound);
                }
                self.tag_map = without(&self.tag_map, &Removal::Row { id });
                Ok(())
            },
        }
    }

    /// Takes the link between the tags `a` and `b` out of the hierarchy,
    /// whichever of the two is the parent. Refused where the two are not
    /// linked.
    pub fn remove_connection(&mut self, a: i64, b: i64) -> (r: Result<(), StoreError>)
        requires
            old(self).wf(),
        ensures
            final(self).wf(),
            settles(old(self)@.remove_connection(a, b), old(self)@, final(self)@, r),
    {
        if !link_exists(&self.subtag_map, a, b) && !link_exists(&self.subtag_map, b, a) {
            return Err(StoreError::NotFound);
        }
        proof {
            self@.lemma_without_connection_wf(a, b);
        }
        let once = without(&self.subtag_map, &Removal::Pair { left: a, right: b });
        self.subtag_map = without(&once, &Removal::Pair { left: b, right: a });
        Ok(())
    }

    /// The id of the first row of `table` that meets every one of
    /// `conditions`.
    pub fn find_id(&self, table: Table, conditions: &Vec<Condition>) -> (r: Option<i64>)
        ensures
            r == self@.find_id(table, conditions.deep_view()),
    {
        match table {
            Table::Tags => first_fitting_name(&self.tags, table, conditions),
            Table::Namespaces => first_fitting_name(&self.namespaces, table, conditions),
            Table::Images => first_fitting_name(&self.images, table, conditions),
            Table::NamespaceMap => first_fitting_link(&self.namespace_map, table, conditions),
            Table::SubtagMap => first_fitting_link(&self.subtag_map, table, conditions),
            Table::TagMap => first_fitting_link(&self.tag_map, table, conditions),
        }
    }

    /// Whether there is a tag `id`.
    pub fn has_tag(&self, id: i64) -> (r: bool)
        ensures
            r == has_id(self@.tags, id),
    {
        find_id(&self.tags, id).is_some()
    }

    /// Whether there is an item `id`.
    pub fn has_item(&self, id: i64) -> (r: bool)
        ensures
            r == has_id(self@.images, id),
    {
        find_id(&self.images, id).is_some()
    }

    /// The id of the tag named `name`.
    pub fn tag_id(&self, name: &str) -> (r: Option<i64>)
        ensures
            r == id_of(self@.tags, name@),
    {
        id_by_name(&self.tags, name)
    }

    /// The id of the item at `path`.
    pub fn item_id(&self, path: &str) -> (r: Option<i64>)
        ensures
            r == id_of(self@.images, path@),
    {
        id_by_name(&self.images, path)
    }

    /// The id of the namespace named `name`.
    pub fn namespace_id(&self, name: &str) -> (r: Option<i64>)
        ensures
            r == id_of(self@.namespaces, name@),
    {
        id_by_name(&self.namespaces, name)
    }

    /// The name of tag `id`.
    pub fn tag_name(&self, id: i64) -> (r: Option<String>)
        ensures
            r.deep_view() == name_of(self@.tags, id),
    {
        name_by_id(&self.tags, id)
    }

    /// The path of item `id`.
    pub fn item_path(&self, id: i64) -> (r: Option<String>)
        ensures
            r.deep_view() == name_of(self@.images, id),
    {
        name_by_id(&self.images, id)
    }

    /// The name of namespace `id`.
    pub fn namespace_name(&self, id: i64) -> (r: Option<String>)
        ensures
            r.deep_view() == name_of(self@.namespaces, id),
    {
        name_by_id(&self.namespaces, id)
    }
}

/// The id of the first row named `name`.
fn id_by_name(rows: &Vec<(i64, String)>, name: &str) -> (r: Option<i64>)
    ensures
        r == id_of(rows.deep_view(), name@),
{
    match find_name(rows, name) {
        Some(i) => {
            Some(rows[i].0)
        },
        None => None,
    }
}

/// The name of the first row with the id `id`.
fn name_by_id(rows: &Vec<(i64, String)>, id: i64) -> (r: Option<String>)
    ensures
        r.deep_view() == name_of(rows.deep_view(), id),
{
    match find_id(rows, id) {
        Some(i) => {
            Some(rows[i].1.clone())
        },
        None => None,
    }
}

} // verus!
