//! A tag store: tags, items and namespaces, a hierarchy among the tags, and
//! queries over what the items are tagged with.
//!
//! [`store::Store`] holds the six tables and offers every operation;
//! [`model::State`] is what its contracts speak of, and [`laws`] is what
//! holds of it whatever its state. The modules under [`methods`] offer the
//! operations table by table, [`wrapper::Database`] behind one handle.
//! [`load`] takes a store from plain rows and gives it back, for a caller
//! that keeps it somewhere; [`front`] decides what a front end does on a key.

pub mod front;
pub mod graph;
pub mod invariants;
pub mod laws;
pub mod load;
pub mod methods;
pub mod model;
pub mod predicate;
pub mod rows;
pub mod store;
pub mod tables;
pub mod text;
pub mod wrapper;

pub use methods::{images, init, namespaces, subtags, tags, utils};
