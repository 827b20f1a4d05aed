//! Bookkeeping shared by the storages: handles, callbacks, result codes of
//! the handle-based interface, and database connection settings.
use vstd::prelude::*;

pub mod callbacks;
pub mod error_code;
pub mod handle_store;
pub mod multi_pool;

verus! {

} // verus!
