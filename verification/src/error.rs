//! Top-level error type for the cryptotui library.

use vstd::prelude::*;

verus! {

/// Top-level error variants produced by the cryptotui library.
#[derive(Debug)]
pub enum CryptoTuiError {
    /// An indicator or buffer was constructed with an invalid setting
    /// (for example, a zero period or zero capacity).
    InvalidConfig(String),
}

} // verus!
