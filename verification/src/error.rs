//! The error taxonomy: every failure of the pipeline is one of these,
//! and none is silently swallowed or retried.

use vstd::prelude::*;

verus! {

/// Every way a run of the client can fail.
#[derive(Clone, Copy, PartialEq, Eq, Structural, Debug)]
pub enum Error {
    /// The access token is missing or the configuration source was unreadable.
    ConfigError,
    /// A fetch of accounts, balances or pots failed.
    ApiError,
    /// An account's type tag has no display mapping.
    UnsupportedAccountType,
    /// An account number is shorter than the minimum maskable length.
    InvalidInput,
    /// The output sink rejected a write.
    WriteError,
    /// The requested command is not implemented.
    UnimplementedCommand,
}

} // verus!
