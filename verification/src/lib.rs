//! The core of a keyboard input gateway: which key a code denotes, and what a
//! call does with the input controller, step by step.
//!
//! A host sends keys as small integers and directions as tokens. [`key`] fixes
//! the meaning of the integers, [`direction`] that of the tokens. [`press`] and
//! [`text`] hold the two calls, pressing or releasing a sequence of keys and
//! typing a text, as state machines ([`call`]): a driver asks a call for its
//! next step, does what the step says (takes the controller, performs an
//! injection, gives the controller up) and reports the mechanism's answer.
//! Every decision is taken here: the order of the events, where a call stops,
//! and how it ends ([`error`]). [`gateway`] proves what the steps add up to
//! when many callers share the controller.
//!
//! Nothing in this crate touches the operating system, and nothing in it is
//! shared between calls.

pub mod call;
pub mod direction;
pub mod error;
pub mod gateway;
pub mod key;
pub mod press;
pub mod text;
