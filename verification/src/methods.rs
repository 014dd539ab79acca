//! The operations by table: what callers of the store use.

pub mod images;
pub mod init;
pub mod namespaces;
pub mod subtags;
pub mod tags;
pub mod utils;
