//! Tags: creating, naming and deleting them, and giving them to items.

use crate::model::{allows, answers, settles, StoreError};
use crate::rows::name_of;
use crate::store::Store;
use vstd::prelude::*;

verus! {

/// Gives the item `img` the tag named `tag`, and with it every ancestor of
/// the tag; a tag that the item has already stays as it is. Where no tag has
/// the name, one is created first if `create` says so. Nothing is returned,
/// and nothing changes, where there is no such item, or no such tag and none
/// to be created.
pub fn add_tag_to_img(tag: &str, img: i64, create: bool, store: &mut Store) -> (r: Option<()>)
    requires
        old(store).wf(),
    ensures
        final(store).wf(),
        allows(old(store)@.assign(img, tag@, create), old(store)@, final(store)@, r),
{
    match store.assign(img, tag, create) {
        Ok(()) => Some(()),
        Err(_) => None,
    }
}

/// Takes the tag `tag_id` from the item `img_id`: this one assignment and no
/// other. Refused where the item does not have the tag.
pub fn remove_tag_from_img(tag_id: i64, img_id: i64, store: &mut Store) -> (r: Result<
    (),
    StoreError,
>)
    requires
        old(store).wf(),
    ensures
        final(store).wf(),
        settles(old(store)@.unassign(tag_id, img_id), old(store)@, final(store)@, r),
{
    store.unassign(tag_id, img_id)
}

/// Creates a tag named `tag` and returns its id; nothing where a tag has the
/// name already.
pub fn add_tag(tag: &str, store: &mut Store) -> (r: Option<i64>)
    requires
        old(store).wf(),
    ensures
        final(store).wf(),
        answers(old(store)@.create_tag(tag@), old(store)@, final(store)@, r),
{
    match store.create_tag(tag) {
        Ok(id) => Some(id),
        Err(_) => None,
    }
}

/// Creates a tag for each of `tags` in turn, and returns for each the id of
/// its tag, or nothing where a tag had the name already.
pub fn add_tags(tags: Vec<&str>, store: &mut Store) -> (r: Vec<Option<i64>>)
    requires
        old(store).wf(),
    ensures
        final(store).wf(),
        (final(store)@, r@) == old(store)@.create_tags(tags.deep_view()),
{
    let ghost names = tags.deep_view();
    let mut ids: Vec<Option<i64>> = Vec::new();
    let mut k: usize = 0;
    proof {
        assert(names.take(0) =~= Seq::<Seq<char>>::empty());
    }
    while k < tags.len()
        invariant
            k <= tags@.len(),
            names == tags.deep_view(),
            store.wf(),
            (store@, ids@) == old(store)@.create_tags(names.take(k as int)),
        decreases tags@.len() - k,
    {
        proof {
            assert(names[k as int] == tags@[k as int]@);
            assert(names.take(k + 1).drop_last() =~= names.take(k as int));
            assert(names.take(k + 1).last() == names[k as int]);
        }
        ids.push(add_tag(tags[k], store));
        k += 1;
    }
    proof {
        names.lemma_take_len();
    }
    ids
}

/// Deletes the tag `tag`, and with it its links in the hierarchy, its place
/// in a namespace and its assignments to items. Refused where there is no such
/// tag.
pub fn remove_tag(tag: i64, store: &mut Store) -> (r: Result<(), StoreError>)
    requires
        old(store).wf(),
    ensures
        final(store).wf(),
        settles(old(store)@.delete_tag(tag), old(store)@, final(store)@, r),
{
    store.delete_tag(tag)
}

/// Deletes the tags `tags` one after the other, each with what hangs on it.
/// At the first that is not there it stops and refuses; the tags before it
/// stay deleted.
pub fn remove_tags(tags: Vec<i64>, store: &mut Store) -> (r: Result<(), StoreError>)
    requires
        old(store).wf(),
    ensures
        final(store).wf(),
        final(store)@ == old(store)@.delete_tags(tags@).0,
        r is Ok <==> old(store)@.delete_tags(tags@).1,
        r is Err ==> r == Err::<(), StoreError>(StoreError::NotFound),
{
    let mut k: usize = 0;
    proof {
        assert(tags@.take(0) =~= Seq::<i64>::empty());
    }
    while k < tags.len()
        invariant
            k <= tags@.len(),
            store.wf(),
            (store@, true) == old(store)@.delete_tags(tags@.take(k as int)),
        decreases tags@.len() - k,
    {
        proof {
            assert(tags@.take(k + 1).drop_last() =~= tags@.take(k as int));
        }
        match remove_tag(tags[k], store) {
            Ok(()) => {},
            Err(e) => {
                proof {
                    old(store)@.lemma_delete_tags_stops(tags@, k + 1);
                }
                return Err(e);
            },
        }
        k += 1;
    }
    proof {
        tags@.lemma_take_len();
    }
    Ok(())
}

/// The name of the tag `tag_id`.
pub fn get_name(tag_id: i64, store: &Store) -> (r: Option<String>)
    ensures
        r.deep_view() == name_of(store@.tags, tag_id),
{
    store.tag_name(tag_id)
}

/// Gives the tag `tag_id` the name `new_name`. Refused where there is no such
/// tag, or another tag has the name.
pub fn rename_tag(tag_id: i64, new_name: &str, store: &mut Store) -> (r: Result<(), StoreError>)
    requires
        old(store).wf(),
    ensures
        final(store).wf(),
        settles(old(store)@.rename_tag(tag_id, new_name@), old(store)@, final(store)@, r),
{
    store.rename_tag(tag_id, new_name)
}

/// The tags that no item has, in the order of their ids.
pub fn get_orphans(store: &Store) -> (r: Vec<(i64, String)>)
    ensures
        r.deep_view() == store@.orphan_tags(),
{
    store.orphan_tags()
}

/// The tags whose name holds `search_term`, letters compared without regard
/// to ASCII case, in the order of their ids; none where `search_term` is
/// empty.
pub fn get_tags_with(search_term: &str, store: &Store) -> (r: Vec<(i64, String)>)
    ensures
        r.deep_view() == store@.search_tags(search_term@),
{
    store.search_tags(search_term)
}

} // verus!
