//! The MySQL storage's query language.
use vstd::prelude::*;

pub mod query_translator;

verus! {

} // verus!
