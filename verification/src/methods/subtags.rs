//! The hierarchy among the tags.

use crate::graph::{is_ancestor, is_descendant};
use crate::model::{allows, StoreError};
use crate::store::Store;
use vstd::prelude::*;

verus! {

/// The ancestors of the tag `child_id`: its parents, their parents, and so
/// on, each once.
pub fn get_parents(child_id: i64, store: &Store) -> (r: Result<Vec<i64>, StoreError>)
    ensures
        r is Ok,
        r->Ok_0@.no_duplicates(),
        forall|a: i64| r->Ok_0@.contains(a) <==> is_ancestor(store@.subtag_map, a, child_id),
{
    Ok(store.ancestors(child_id))
}

/// The descendants of the tag `parent_id`: its children, their children, and
/// so on, each once.
pub fn get_children(parent_id: i64, store: &Store) -> (r: Result<Vec<i64>, StoreError>)
    ensures
        r is Ok,
        r->Ok_0@.no_duplicates(),
        forall|d: i64| r->Ok_0@.contains(d) <==> is_descendant(store@.subtag_map, d, parent_id),
{
    Ok(store.descendants(parent_id))
}

/// Makes the tag `parent_id` a direct parent of the tag `child_id`. Nothing
/// is returned, and nothing changes, where one of the two does not exist,
/// where the link is there already, and where it would close a cycle.
pub fn parent_tag(parent_id: i64, child_id: i64, store: &mut Store) -> (r: Option<()>)
    requires
        old(store).wf(),
    ensures
        final(store).wf(),
        allows(
            old(store)@.add_hierarchy_edge(parent_id, child_id),
            old(store)@,
            final(store)@,
            r,
        ),
{
    match store.add_hierarchy_edge(parent_id, child_id) {
        Ok(()) => Some(()),
        Err(_) => None,
    }
}

/// Takes the link between the tags named `tag1` and `tag2` out of the
/// hierarchy, whichever of the two is the parent. Nothing is returned, and
/// nothing changes, where one of the names is no tag's and where the two tags
/// are not linked.
pub fn remove_connection(tag1: &str, tag2: &str, store: &mut Store) -> (r: Option<()>)
    requires
        old(store).wf(),
    ensures
        final(store).wf(),
        allows(
            old(store)@.remove_connection_by_name(tag1@, tag2@),
            old(store)@,
            final(store)@,
            r,
        ),
{
    let a: i64 = match store.tag_id(tag1) {
        Some(id) => id,
        None => {
            return None;
        },
    };
    let b: i64 = match store.tag_id(tag2) {
        Some(id) => id,
        None => {
            return None;
        },
    };
    match store.remove_connection(a, b) {
        Ok(()) => Some(()),
        Err(_) => None,
    }
}

} // verus!
