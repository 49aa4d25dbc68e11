//! Integrity checks for downloading release assets: a declared-size
//! ceiling, and the double size check (transport header and actual byte
//! count) that guards against a server lying about an asset's size.

use vstd::prelude::*;

verus! {

/// Why a fetch was refused.
#[derive(Debug, Clone, Copy, PartialEq, Eq, Structural)]
pub enum FetchError {
    /// The asset's declared size exceeds the configured ceiling.
    AssetTooLarge,
    /// The transport's reported length, or the transferred byte count,
    /// does not match the asset's declared size.
    SizeMismatch,
}

impl FetchError {
    /// A human-readable description of the error.
    pub fn message(&self) -> &'static str {
        match self {
            FetchError::AssetTooLarge => "Asset too large",
            FetchError::SizeMismatch => "Downloaded size mismatch",
        }
    }
}

/// Refuses an asset whose declared size exceeds the ceiling.
pub fn check_declared_size(declared: u64, ceiling: u64) -> (r: Result<(), FetchError>)
    ensures
        r is Ok <==> declared <= ceiling,
        r is Err ==> r == Err::<(), FetchError>(FetchError::AssetTooLarge),
{
    if declared > ceiling {
        Err(FetchError::AssetTooLarge)
    } else {
        Ok(())
    }
}

/// Checks the transport-reported content length, when one was reported,
/// against the declared size.
pub fn check_reported_length(declared: u64, reported: Option<u64>) -> (r: Result<(), FetchError>)
    ensures
        r is Ok <==> (reported is None || reported == Some(declared)),
        r is Err ==> r == Err::<(), FetchError>(FetchError::SizeMismatch),
{
    match reported {
        None => Ok(()),
        Some(n) => {
            if n == declared {
                Ok(())
            } else {
                Err(FetchError::SizeMismatch)
            }
        },
    }
}

/// Checks the byte count actually received against the declared size.
pub fn check_transferred_size(declared: u64, transferred: u64) -> (r: Result<(), FetchError>)
    ensures
        r is Ok <==> transferred == declared,
        r is Err ==> r == Err::<(), FetchError>(FetchError::SizeMismatch),
{
    if transferred == declared {
        Ok(())
    } else {
        Err(FetchError::SizeMismatch)
    }
}

} // verus!
