//! The error kinds of the core: each carries the data a caller needs to
//! report it.  No kind is ever downgraded to a warning.

use vstd::prelude::*;

verus! {

/// A failure of the resolution, verification or cache logic.
#[derive(Clone, Debug, PartialEq, Eq)]
pub enum Error {
    /// A malformed specifier name or version string.
    InvalidSpecifier { input: String },
    /// A non-2xx registry response.
    RegistryStatus { status: u16 },
    /// A registry response that could not be decoded.
    RegistryDecode,
    /// A range or dist-tag that resolved to nothing; carries the rendered
    /// specifier for diagnosis.
    NoMatchingVersion { spec: String },
    /// A digest or signature check failure, with both values in hexadecimal
    /// (or the signature data) for forensic comparison.
    IntegrityMismatch { expected: String, actual: String },
    /// A filesystem failure during staging, unpack or commit.
    CacheIo { message: String },
}

} // verus!
