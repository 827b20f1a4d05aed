use vstd::prelude::*;

verus! {

/// The result codes that the storage reports to its caller.
#[derive(Debug, PartialEq, Eq, Structural, Copy, Clone)]
pub enum ErrorCode {
    /// Call succeeded.
    Success,
    /// Invalid library state was detected at run time, or a handle or string was invalid.
    InvalidState,
    /// An object (json, config, and so on) passed by the caller has an invalid structure.
    InvalidStructure,
    /// Error in communicating with the database: broken query, server unavailable.
    IOError,
    /// Attempt to create a wallet with a name used by another wallet.
    WalletAlreadyExistsError,
    /// The requested entity is not present in the wallet.
    WalletNotFoundError,
    /// The entity already exists in the wallet.
    RecordAlreadyExists,
}

/// The numeric code that the C interface reports for each result.
pub open spec fn spec_error_code_value(e: ErrorCode) -> i32 {
    match e {
        ErrorCode::Success => 0,
        ErrorCode::InvalidState => 112,
        ErrorCode::InvalidStructure => 113,
        ErrorCode::IOError => 114,
        ErrorCode::WalletAlreadyExistsError => 203,
        ErrorCode::WalletNotFoundError => 204,
        ErrorCode::RecordAlreadyExists => 208,
    }
}

impl ErrorCode {
    /// The numeric code of this result at the C interface.
    pub fn value(&self) -> (r: i32)
        ensures
            r == spec_error_code_value(*self),
    {
        match self {
            ErrorCode::Success => 0,
            ErrorCode::InvalidState => 112,
            ErrorCode::InvalidStructure => 113,
            ErrorCode::IOError => 114,
            ErrorCode::WalletAlreadyExistsError => 203,
            ErrorCode::WalletNotFoundError => 204,
            ErrorCode::RecordAlreadyExists => 208,
        }
    }
}

} // verus!
