//! Setting a store up.

use crate::model::State;
use crate::store::Store;
use vstd::prelude::*;

verus! {

/// The six tables, empty.
pub fn init_tables() -> (store: Store)
    ensures
        store@ == State::empty(),
        store.wf(),
{
    Store::new()
}

} // verus!
