//! The direction of a key transition and the tokens that callers name it by.

use vstd::prelude::*;
use vstd::string::StrSliceExecFns;
use crate::error::InputError;

verus! {

/// Whether a key goes down or comes up.
#[derive(Clone, Copy, Debug, PartialEq, Eq, Hash, Structural)]
pub enum Direction {
    Press,
    Release,
}

/// The token `"down"`, which asks for [`Direction::Press`].
pub open spec fn down_token() -> Seq<char> {
    seq!['d', 'o', 'w', 'n']
}

/// The token `"up"`, which asks for [`Direction::Release`].
pub open spec fn up_token() -> Seq<char> {
    seq!['u', 'p']
}

/// The direction that a token names, if it names one. Tokens are compared
/// exactly: no trimming, no folding of case.
pub open spec fn direction_of(token: Seq<char>) -> Option<Direction> {
    if token == down_token() {
        Some(Direction::Press)
    } else if token == up_token() {
        Some(Direction::Release)
    } else {
        None
    }
}

/// Reads a direction token. Anything but `"down"` and `"up"` is answered with
/// [`InputError::InvalidDirection`].
pub fn parse_direction(token: &str) -> (result: Result<Direction, InputError>)
    ensures
        result == match direction_of(token@) {
            Some(direction) => Ok::<Direction, InputError>(direction),
            None => Err::<Direction, InputError>(InputError::InvalidDirection),
        },
{
    let n = token.unicode_len();
    if n == 4 && token.get_char(0) == 'd' && token.get_char(1) == 'o' && token.get_char(2) == 'w'
        && token.get_char(3) == 'n' {
        assert(token@ =~= down_token());
        Ok(Direction::Press)
    } else if n == 2 && token.get_char(0) == 'u' && token.get_char(1) == 'p' {
        assert(token@ =~= up_token());
        Ok(Direction::Release)
    } else {
        Err(InputError::InvalidDirection)
    }
}

} // verus!
