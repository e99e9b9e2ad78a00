//! What the two kinds of call have in common.
//!
//! A call is a state machine that its driver steps through. It first asks for
//! the input controller, then names its injections one by one, then gives the
//! controller up and ends. The driver does what a step says, and with the next
//! request for a step reports whether the mechanism accepted the injection
//! that the last step named.

use vstd::prelude::*;
use crate::error::InputError;

verus! {

/// Where a call stands with regard to the input controller.
#[derive(Clone, Copy, Debug, PartialEq, Eq, Hash)]
pub enum Phase {
    /// The call has not asked for the controller yet.
    Waiting,
    /// The call has asked for the controller and has not given it up.
    Holding,
    /// The call has given the controller up and is over, with this result.
    Over(Result<(), InputError>),
}

} // verus!
