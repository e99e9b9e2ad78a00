//! The ways in which a gateway call can fail.

use vstd::prelude::*;

verus! {

/// Why a call was abandoned. Each is fatal to the call it occurs in and to nothing else.
#[derive(Clone, Copy, Debug, PartialEq, Eq, Hash, Structural)]
pub enum InputError {
    /// The direction token is neither `"down"` nor `"up"`.
    InvalidDirection,
    /// A key code lies outside the enumeration.
    InvalidKeyCode,
    /// The injection mechanism refused or could not perform an injection.
    InjectionFailure,
}

} // verus!
