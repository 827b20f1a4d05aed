use vstd::prelude::*;

pub mod error_code;

verus! {

} // verus!
