//! Looking a row up by conditions, and deleting a row by its id, in a table
//! given by its name.

use crate::model::{settles, StoreError};
use crate::predicate::read_conditions;
use crate::store::Store;
use crate::tables::table_of;
use vstd::prelude::*;

verus! {

/// The id of the first row of the table named `table` that meets the
/// conditions in `query`, such as `name='test'` or
/// `parent_id=1 AND child_id=2`. Nothing where no row meets them, where there
/// is no such table, and where `query` is not made of conditions.
pub fn get_id(table: &str, query: &str, store: &Store) -> (r: Option<i64>)
    ensures
        r == store@.get_id(table@, query@),
{
    match table_of(table) {
        None => None,
        Some(t) => match read_conditions(query) {
            None => None,
            Some(conditions) => store.find_id(t, &conditions),
        },
    }
}

/// Deletes the row with the id `id` from the table named `table`; with a
/// tag, an item or a namespace goes what hangs on it. Refused where there is
/// no such row or no such table.
pub fn remove_id(id: i64, table: &str, store: &mut Store) -> (r: Result<(), StoreError>)
    requires
        old(store).wf(),
    ensures
        final(store).wf(),
        settles(old(store)@.remove_id(id, table@), old(store)@, final(store)@, r),
{
    match table_of(table) {
        None => Err(StoreError::NotFound),
        Some(t) => store.delete(t, id),
    }
}

} // verus!
