use vstd::prelude::*;

verus! {

/// Every failure SHER-Input reports. Each variant carries a human-readable message.
#[derive(Debug, Clone, PartialEq, Eq)]
pub enum Error {
    DeviceNotFound(String),
    DeviceAlreadyRegistered(String),
    Backend(String),
    Unsupported(String),
    GrabDenied(String),
    SyntheticInputDenied(String),
    InvalidConfig(String),
    /// An I/O failure, carried as the text of the underlying error.
    Io(String),
}

pub type Result<T> = core::result::Result<T, Error>;

} // verus!
