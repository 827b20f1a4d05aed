use vstd::prelude::*;

verus! {

/// The result codes of the handle-based interface.
#[derive(Debug, PartialEq, Eq, Structural, Copy, Clone)]
pub enum ErrorCode {
    Success,
    InvalidStorageHandle,
    InvalidSearchHandle,
    InvalidRecordHandle,
}

/// The numeric code that the C interface reports for each result.
pub open spec fn spec_error_code_value(e: ErrorCode) -> i32 {
    match e {
        ErrorCode::Success => 0,
        ErrorCode::InvalidStorageHandle => 1,
        ErrorCode::InvalidSearchHandle => 2,
        ErrorCode::InvalidRecordHandle => 3,
    }
}

impl ErrorCode {
    /// The numeric code of this result at the C interface.
    pub fn value(&self) -> (r: i32)
        ensures
            r == spec_error_code_value(*self),
    {
        match self {
            ErrorCode::Success => 0,
            ErrorCode::InvalidStorageHandle => 1,
            ErrorCode::InvalidSearchHandle => 2,
            ErrorCode::InvalidRecordHandle => 3,
        }
    }
}

} // verus!
