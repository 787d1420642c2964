//! Locking primitives.

pub mod ww_mutex;
