//! Wallet storage for Indy-style wallets kept in a MySQL compatible database:
//! the WQL query language and its translation to SQL, the decisions taken on
//! database replies, handle bookkeeping, and the JSON configuration formats.
use vstd::prelude::*;

pub mod aurora_storage;
pub mod errors;
pub mod json;
pub mod mysql_storage;
pub mod utils;
pub mod wql;

verus! {

} // verus!
