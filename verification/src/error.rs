//! Error taxonomy of the dispatch core.

use vstd::prelude::*;

verus! {

/// Failures surfaced by the dispatcher and by device models.
#[derive(Debug)]
pub enum Error {
    /// A registration conflict: the message names the offered and the
    /// conflicting region.
    InvalidDevice(String),
    /// A malformed access-request width, an unconvertible narrowing, or an
    /// unexpected port within a device's claimed set.
    InvalidValue(String),
    /// A device received a handler call for a direction it does not implement.
    NotImplemented(String),
}

impl Error {
    /// The human-readable message carried by any variant.
    pub open spec fn spec_message(&self) -> Seq<char> {
        match self {
            Error::InvalidDevice(m) => m@,
            Error::InvalidValue(m) => m@,
            Error::NotImplemented(m) => m@,
        }
    }

    /// Returns the message carried by the error.
    pub fn message(&self) -> (r: &str)
        ensures
            r@ == self.spec_message(),
    {
        match self {
            Error::InvalidDevice(m) => m.as_str(),
            Error::InvalidValue(m) => m.as_str(),
            Error::NotImplemented(m) => m.as_str(),
        }
    }
}

} // verus!
