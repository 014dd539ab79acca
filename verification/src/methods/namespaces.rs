//! Namespaces: groups that a tag can be put into, one at a time.

use crate::model::{answers, settles, StoreError};
use crate::rows::name_of;
use crate::store::Store;
use vstd::prelude::*;

verus! {

/// Creates a namespace named `name` and returns its id; nothing where a
/// namespace has the name already.
pub fn add_namespace(name: &str, store: &mut Store) -> (r: Option<i64>)
    requires
        old(store).wf(),
    ensures
        final(store).wf(),
        answers(old(store)@.create_namespace(name@), old(store)@, final(store)@, r),
{
    match store.create_namespace(name) {
        Ok(id) => Some(id),
        Err(_) => None,
    }
}

/// Gives the namespace `id` the name `new_name`. Refused where there is no
/// such namespace, or another namespace has the name.
pub fn rename_namespace(id: i64, new_name: &str, store: &mut Store) -> (r: Result<(), StoreError>)
    requires
        old(store).wf(),
    ensures
        final(store).wf(),
        settles(old(store)@.rename_namespace(id, new_name@), old(store)@, final(store)@, r),
{
    store.rename_namespace(id, new_name)
}

/// Puts the tag `tag` into the namespace `namespace`. Refused where one of
/// the two does not exist, and where the tag is in a namespace already.
pub fn add_namespace_to_tag(namespace: i64, tag: i64, store: &mut Store) -> (r: Result<
    (),
    StoreError,
>)
    requires
        old(store).wf(),
    ensures
        final(store).wf(),
        settles(old(store)@.set_namespace(tag, namespace), old(store)@, final(store)@, r),
{
    store.set_namespace(tag, namespace)
}

/// Takes the tag `tag` out of its namespace. Refused where it is in none.
pub fn remove_namespace_from_tag(tag: i64, store: &mut Store) -> (r: Result<(), StoreError>)
    requires
        old(store).wf(),
    ensures
        final(store).wf(),
        settles(old(store)@.clear_namespace(tag), old(store)@, final(store)@, r),
{
    store.clear_namespace(tag)
}

/// Deletes the namespace `namespace_id`; its tags stay, without a namespace.
/// Refused where there is no such namespace.
pub fn remove_namespace(namespace_id: i64, store: &mut Store) -> (r: Result<(), StoreError>)
    requires
        old(store).wf(),
    ensures
        final(store).wf(),
        settles(old(store)@.delete_namespace(namespace_id), old(store)@, final(store)@, r),
{
    store.delete_namespace(namespace_id)
}

/// The name of the namespace `namespace_id`.
pub fn get_namespace_name(namespace_id: i64, store: &Store) -> (r: Option<String>)
    ensures
        r.deep_view() == name_of(store@.namespaces, namespace_id),
{
    store.namespace_name(namespace_id)
}

/// The namespace that the tag `tag_id` is in.
pub fn get_namespace_of_tag(tag_id: i64, store: &Store) -> (r: Option<i64>)
    ensures
        r == store@.namespace_of_tag(tag_id),
{
    store.namespace_of_tag(tag_id)
}

/// The tags in the namespace `namespace_id` with their names, in the order
/// of their ids.
pub fn get_tags_with_namespace(namespace_id: i64, store: &Store) -> (r: Vec<(i64, String)>)
    ensures
        r.deep_view() == store@.tags_in_namespace(namespace_id),
{
    store.tags_in_namespace(namespace_id)
}

/// The namespaces that hold no tag, in the order of their ids.
pub fn get_orphans(store: &Store) -> (r: Vec<(i64, String)>)
    ensures
        r.deep_view() == store@.orphan_namespaces(),
{
    store.orphan_namespaces()
}

} // verus!
