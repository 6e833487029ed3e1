//! What can go wrong.

use crate::sysfs::Node;
use vstd::prelude::*;

verus! {

/// A failure of the core.
#[derive(Clone, Copy, Debug, PartialEq, Eq, Structural)]
pub enum Error {
    /// A control file could not be read or written.
    Io(Node),
    /// A control file holds text that cannot be read as what it stands for.
    Parse(Node),
    /// The backend does not drive this machine.
    Unsupported,
    /// No backend drives this machine under the name that was asked for.
    NoDriverAvailable,
    /// Every cookie has been issued.
    CookiesExhausted,
}

/// Whether a result is what `expected` says: the same failure, or a value
/// that holds what is expected.
pub open spec fn agrees<T: View, E>(got: Result<T, E>, expected: Result<T::V, E>) -> bool {
    match got {
        Ok(value) => expected == Ok::<T::V, E>(value@),
        Err(error) => expected == Err::<T::V, E>(error),
    }
}

} // verus!
