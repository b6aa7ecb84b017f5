//! The kinds of failure that the service tells apart.

use vstd::prelude::*;

verus! {

/// What kind of thing went wrong; the kind decides how a failure is answered.
#[derive(Clone, Copy, Debug, PartialEq, Eq, Structural)]
pub enum ErrorKind {
    /// A request that the backend refuses before it looks anything up.
    Validation,
    /// A read, a write or a remote call that did not go through.
    Transport,
    /// No endpoint to send the request to.
    Routing,
    /// The file could not be read while counting.
    ScanFailure,
    /// A configuration that cannot be used.
    Config,
    /// A health probe that failed.
    Health,
}

} // verus!
