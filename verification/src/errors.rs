//! The failures an operation can report.

use vstd::prelude::*;
use crate::address::Address;

verus! {

/// A tagged error. An operation that fails leaves all state unchanged.
#[derive(Debug)]
pub enum Error {
    /// The caller of an owner-gated operation is not the current owner;
    /// carries the offending caller.
    UnauthorizedAccount(Address),
    /// An ownership change named a disallowed owner; carries it.
    InvalidOwner(Address),
    /// The parallel sequences of a batch call differ in length.
    BoundsError,
    /// A running total would leave the 256-bit amount domain.
    Overflow,
}

} // verus!
