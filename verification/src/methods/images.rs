//! Items: the images that tags are given to, and the queries over them.

use crate::model::{answers, settles, StoreError};
use crate::rows::name_of;
use crate::store::Store;
use vstd::prelude::*;

verus! {

/// Creates an item with the path `path` and returns its id; nothing where an
/// item has the path already.
pub fn add_image(path: &str, store: &mut Store) -> (r: Option<i64>)
    requires
        old(store).wf(),
    ensures
        final(store).wf(),
        answers(old(store)@.create_item(path@), old(store)@, final(store)@, r),
{
    match store.create_item(path) {
        Ok(id) => Some(id),
        Err(_) => None,
    }
}

/// Deletes the item at `path` and its assignments. Refused where there is no
/// such item.
pub fn remove_image_path(path: &str, store: &mut Store) -> (r: Result<(), StoreError>)
    requires
        old(store).wf(),
    ensures
        final(store).wf(),
        settles(old(store)@.delete_item_by_path(path@), old(store)@, final(store)@, r),
{
    store.delete_item_by_path(path)
}

/// The items that have the tag `tag_id`, in the order of their ids.
pub fn get_images_with_tag(tag_id: i64, store: &Store) -> (r: Result<
    Vec<(i64, String)>,
    StoreError,
>)
    ensures
        r is Ok,
        r->Ok_0.deep_view() == store@.items_with_tag(tag_id),
{
    Ok(store.items_with_tag(tag_id))
}

/// The tags of the item `img_id` with their names, in the order of their ids.
pub fn get_tags_of_img(img_id: i64, store: &Store) -> (r: Vec<(i64, String)>)
    ensures
        r.deep_view() == store@.tags_of_item(img_id),
{
    store.tags_of_item(img_id)
}

/// The path of the item `img_id`.
pub fn get_path(img_id: i64, store: &Store) -> (r: Option<String>)
    ensures
        r.deep_view() == name_of(store@.images, img_id),
{
    store.item_path(img_id)
}

/// Gives the item `id` the path `new_path`. Refused where there is no such
/// item, or another item has the path.
pub fn update_path(id: i64, new_path: &str, store: &mut Store) -> (r: Result<(), StoreError>)
    requires
        old(store).wf(),
    ensures
        final(store).wf(),
        settles(old(store)@.update_path(id, new_path@), old(store)@, final(store)@, r),
{
    store.update_path(id, new_path)
}

/// The items without a tag, in the order of their ids.
pub fn get_orphans(store: &Store) -> (r: Vec<(i64, String)>)
    ensures
        r.deep_view() == store@.orphan_items(),
{
    store.orphan_items()
}

/// Answers a query: the items that have every tag that a word of `query`
/// names, in the order of their ids. Words are separated by white space; a
/// word that names no tag is passed over; where no word names a tag, every
/// item is returned.
pub fn query_sql(query: &str, store: &Store) -> (r: Vec<(i64, String)>)
    ensures
        r.deep_view() == store@.compile_and_run(query@),
{
    store.compile_and_run(query)
}

} // verus!
