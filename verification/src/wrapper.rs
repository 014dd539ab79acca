//! The store behind one handle, with every operation as a method that
//! answers with a value or with nothing.

use crate::graph::{is_ancestor, is_descendant};
use crate::methods::{images, namespaces, subtags, tags};
use crate::model::{allows, answers, State};
use crate::rows::name_of;
use crate::store::Store;
use vstd::prelude::*;

verus! {

/// A handle on a store.
pub struct Database {
    db: Store,
}

impl View for Database {
    type V = State;

    closed spec fn view(&self) -> State {
        self.db@
    }
}

impl Default for Database {
    /// A database without any row.
    fn default() -> (d: Database)
        ensures
            d@ == State::empty(),
            d.wf(),
    {
        Database { db: Store::new() }
    }
}

impl Database {
    /// The store behind the handle is consistent: see [`State::wf`].
    pub open spec fn wf(&self) -> bool {
        self@.wf()
    }

    /// A handle on `db`.
    pub fn new(db: Store) -> (d: Database)
        requires
            db.wf(),
        ensures
            d@ == db@,
            d.wf(),
    {
        Database { db }
    }

    /// The store behind the handle.
    pub fn store(&self) -> (s: &Store)
        ensures
            s@ == self@,
    {
        &self.db
    }

    /// Creates a tag for each of `tags` in turn; a name that a tag has
    /// already is passed over.
    pub fn create_tags(&mut self, tags: Vec<&str>)
        requires
            old(self).wf(),
        ensures
            final(self).wf(),
            final(self)@ == old(self)@.create_tags(tags.deep_view()).0,
    {
        let _ = tags::add_tags(tags, &mut self.db);
    }

    /// Deletes the tags `tags` one after the other, each with what hangs on
    /// it. At the first that is not there it stops and returns nothing; the
    /// tags before it stay deleted.
    pub fn delete_tags(&mut self, tags: Vec<i64>) -> (r: Option<()>)
        requires
            old(self).wf(),
        ensures
            final(self).wf(),
            final(self)@ == old(self)@.delete_tags(tags@).0,
            r is Some <==> old(self)@.delete_tags(tags@).1,
    {
        match tags::remove_tags(tags, &mut self.db) {
            Ok(()) => Some(()),
            Err(_) => None,
        }
    }

    /// The name of the tag `tag_id`.
    pub fn get_tag_name(&self, tag_id: i64) -> (r: Option<String>)
        ensures
            r.deep_view() == name_of(self@.tags, tag_id),
    {
        tags::get_name(tag_id, &self.db)
    }

    /// Gives the tag `tag_id` the name `new_name`; nothing where there is no
    /// such tag, or another tag has the name.
    pub fn rename_tag(&mut self, tag_id: i64, new_name: &str) -> (r: Option<()>)
        requires
            old(self).wf(),
        ensures
            final(self).wf(),
            allows(old(self)@.rename_tag(tag_id, new_name@), old(self)@, final(self)@, r),
    {
        match tags::rename_tag(tag_id, new_name, &mut self.db) {
            Ok(()) => Some(()),
            Err(_) => None,
        }
    }

    /// The tags that no item has.
    pub fn get_tag_orphans(&self) -> (r: Vec<(i64, String)>)
        ensures
            r.deep_view() == self@.orphan_tags(),
    {
        tags::get_orphans(&self.db)
    }

    /// The tags whose name holds `search_term`; none where it is empty.
    pub fn get_tags_with(&self, search_term: &str) -> (r: Vec<(i64, String)>)
        ensures
            r.deep_view() == self@.search_tags(search_term@),
    {
        tags::get_tags_with(search_term, &self.db)
    }

    /// The namespace that the tag `tag_id` is in.
    pub fn get_namespace_of_tag(&self, tag_id: i64) -> (r: Option<i64>)
        ensures
            r == self@.namespace_of_tag(tag_id),
    {
        namespaces::get_namespace_of_tag(tag_id, &self.db)
    }

    /// Gives the item `img_id` the tag named `tag` and every ancestor of it;
    /// where no tag has the name, one is created first if `create` says so.
    pub fn add_tag_to_img(&mut self, tag: &str, img_id: i64, create: bool) -> (r: Option<()>)
        requires
            old(self).wf(),
        ensures
            final(self).wf(),
            allows(old(self)@.assign(img_id, tag@, create), old(self)@, final(self)@, r),
    {
        tags::add_tag_to_img(tag, img_id, create, &mut self.db)
    }

    /// Takes the tag `tag_id` from the item `img_id`; nothing where the item
    /// does not have the tag.
    pub fn remove_tag_from_img(&mut self, tag_id: i64, img_id: i64) -> (r: Option<()>)
        requires
            old(self).wf(),
        ensures
            final(self).wf(),
            allows(old(self)@.unassign(tag_id, img_id), old(self)@, final(self)@, r),
    {
        match tags::remove_tag_from_img(tag_id, img_id, &mut self.db) {
            Ok(()) => Some(()),
            Err(_) => None,
        }
    }

    /// Creates an item with the path `path` and returns its id; nothing where
    /// an item has the path already.
    pub fn create_image(&mut self, path: &str) -> (r: Option<i64>)
        requires
            old(self).wf(),
        ensures
            final(self).wf(),
            answers(old(self)@.create_item(path@), old(self)@, final(self)@, r),
    {
        images::add_image(path, &mut self.db)
    }

    /// Deletes the item at `path` and its assignments; nothing where there
    /// is no such item.
    pub fn delete_image(&mut self, path: &str) -> (r: Option<()>)
        requires
            old(self).wf(),
        ensures
            final(self).wf(),
            allows(old(self)@.delete_item_by_path(path@), old(self)@, final(self)@, r),
    {
        match images::remove_image_path(path, &mut self.db) {
            Ok(()) => Some(()),
            Err(_) => None,
        }
    }

    /// The items that have the tag `tag_id`.
    pub fn get_images_with_tag(&self, tag_id: i64) -> (r: Option<Vec<(i64, String)>>)
        ensures
            r is Some,
            r->Some_0.deep_view() == self@.items_with_tag(tag_id),
    {
        match images::get_images_with_tag(tag_id, &self.db) {
            Ok(found) => Some(found),
            Err(_) => None,
        }
    }

    /// The tags of the item `img_id` with their names.
    pub fn get_tags_of_image(&self, img_id: i64) -> (r: Vec<(i64, String)>)
        ensures
            r.deep_view() == self@.tags_of_item(img_id),
    {
        images::get_tags_of_img(img_id, &self.db)
    }

    /// The path of the item `img_id`.
    pub fn get_image_path(&self, img_id: i64) -> (r: Option<String>)
        ensures
            r.deep_view() == name_of(self@.images, img_id),
    {
        images::get_path(img_id, &self.db)
    }

    /// Gives the item `img_id` the path `path`; nothing where there is no
    /// such item, or another item has the path.
    pub fn replace_image_path(&mut self, img_id: i64, path: &str) -> (r: Option<()>)
        requires
            old(self).wf(),
        ensures
            final(self).wf(),
            allows(old(self)@.update_path(img_id, path@), old(self)@, final(self)@, r),
    {
        match images::update_path(img_id, path, &mut self.db) {
            Ok(()) => Some(()),
            Err(_) => None,
        }
    }

    /// The items without a tag.
    pub fn get_image_orphans(&self) -> (r: Vec<(i64, String)>)
        ensures
            r.deep_view() == self@.orphan_items(),
    {
        images::get_orphans(&self.db)
    }

    /// Answers a query: the items that have every tag that a word of `query`
    /// names.
    pub fn complex_query(&self, query: &str) -> (r: Vec<(i64, String)>)
        ensures
            r.deep_view() == self@.compile_and_run(query@),
    {
        images::query_sql(query, &self.db)
    }

    /// The descendants of the tag `parent_id`, each once.
    pub fn get_tag_children(&self, parent_id: i64) -> (r: Option<Vec<i64>>)
        ensures
            r is Some,
            r->Some_0@.no_duplicates(),
            forall|d: i64|
                r->Some_0@.contains(d) <==> is_descendant(self@.subtag_map, d, parent_id),
    {
        match subtags::get_children(parent_id, &self.db) {
            Ok(found) => Some(found),
            Err(_) => None,
        }
    }

    /// The ancestors of the tag `child_id`, each once.
    pub fn get_tag_parents(&self, child_id: i64) -> (r: Option<Vec<i64>>)
        ensures
            r is Some,
            r->Some_0@.no_duplicates(),
            forall|a: i64| r->Some_0@.contains(a) <==> is_ancestor(self@.subtag_map, a, child_id),
    {
        match subtags::get_parents(child_id, &self.db) {
            Ok(found) => Some(found),
            Err(_) => None,
        }
    }

    /// Makes the tag `parent_id` a direct parent of the tag `tag_id`; nothing
    /// where one of the two does not exist, where the link is there already,
    /// and where it would close a cycle.
    pub fn add_tag_parent(&mut self, parent_id: i64, tag_id: i64) -> (r: Option<()>)
        requires
            old(self).wf(),
        ensures
            final(self).wf(),
            allows(
                old(self)@.add_hierarchy_edge(parent_id, tag_id),
                old(self)@,
                final(self)@,
                r,
            ),
    {
        subtags::parent_tag(parent_id, tag_id, &mut self.db)
    }

    /// Takes the link between the tags `tag1` and `tag2` out of the
    /// hierarchy, whichever of the two is the parent; nothing where the two
    /// are not linked.
    pub fn remove_connection(&mut self, tag1: i64, tag2: i64) -> (r: Option<()>)
        requires
            old(self).wf(),
        ensures
            final(self).wf(),
            allows(old(self)@.remove_connection(tag1, tag2), old(self)@, final(self)@, r),
    {
        match self.db.remove_connection(tag1, tag2) {
            Ok(()) => Some(()),
            Err(_) => None,
        }
    }

    /// Creates a namespace named `name` and returns its id; nothing where a
    /// namespace has the name already.
    pub fn create_namespace(&mut self, name: &str) -> (r: Option<i64>)
        requires
            old(self).wf(),
        ensures
            final(self).wf(),
            answers(old(self)@.create_namespace(name@), old(self)@, final(self)@, r),
    {
        namespaces::add_namespace(name, &mut self.db)
    }

    /// Deletes the namespace `namespace_id`; its tags stay. Nothing where
    /// there is no such namespace.
    pub fn delete_namespace(&mut self, namespace_id: i64) -> (r: Option<()>)
        requires
            old(self).wf(),
        ensures
            final(self).wf(),
            allows(old(self)@.delete_namespace(namespace_id), old(self)@, final(self)@, r),
    {
        match namespaces::remove_namespace(namespace_id, &mut self.db) {
            Ok(()) => Some(()),
            Err(_) => None,
        }
    }

    /// Gives the namespace `namespace_id` the name `name`; nothing where
    /// there is no such namespace, or another namespace has the name.
    pub fn rename_namespace(&mut self, name: &str, namespace_id: i64) -> (r: Option<()>)
        requires
            old(self).wf(),
        ensures
            final(self).wf(),
            allows(
                old(self)@.rename_namespace(namespace_id, name@),
                old(self)@,
                final(self)@,
                r,
            ),
    {
        match namespaces::rename_namespace(namespace_id, name, &mut self.db) {
            Ok(()) => Some(()),
            Err(_) => None,
        }
    }

    /// Puts the tag `tag_id` into the namespace `namespace_id`; nothing where
    /// one of the two does not exist, or the tag is in a namespace already.
    pub fn add_namespace_to_tag(&mut self, namespace_id: i64, tag_id: i64) -> (r: Option<()>)
        requires
            old(self).wf(),
        ensures
            final(self).wf(),
            allows(old(self)@.set_namespace(tag_id, namespace_id), old(self)@, final(self)@, r),
    {
        match namespaces::add_namespace_to_tag(namespace_id, tag_id, &mut self.db) {
            Ok(()) => Some(()),
            Err(_) => None,
        }
    }

    /// Takes the tag `tag_id` out of its namespace; nothing where it is in
    /// none.
    pub fn remove_namespace_from_tag(&mut self, tag_id: i64) -> (r: Option<()>)
        requires
            old(self).wf(),
        ensures
            final(self).wf(),
            allows(old(self)@.clear_namespace(tag_id), old(self)@, final(self)@, r),
    {
        match namespaces::remove_namespace_from_tag(tag_id, &mut self.db) {
            Ok(()) => Some(()),
            Err(_) => None,
        }
    }

    /// The tags in the namespace `namespace_id` with their names.
    pub fn get_tags_with_namespace(&self, namespace_id: i64) -> (r: Vec<(i64, String)>)
        ensures
            r.deep_view() == self@.tags_in_namespace(namespace_id),
    {
        namespaces::get_tags_with_namespace(namespace_id, &self.db)
    }

    /// The namespaces that hold no tag.
    pub fn get_namespace_orphans(&self) -> (r: Vec<(i64, String)>)
        ensures
            r.deep_view() == self@.orphan_namespaces(),
    {
        namespaces::get_orphans(&self.db)
    }
}

} // verus!
