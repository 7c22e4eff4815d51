//! Wakers, and what a poll answers.

use std::task::Waker;
use vstd::prelude::*;

verus! {

/// `std::task::Waker`: the handle by which a parked task is woken. The locks
/// store wakers and hand them out again, and never look inside one.
#[verifier::external_type_specification]
#[verifier::external_body]
pub struct ExWaker(Waker);

/// `Waker::clone`. Its documentation promises that the clone wakes the same
/// task; which task that is lies outside this library, so nothing is claimed
/// here. Contracts say with `cloned` that a stored waker came out of this
/// call.
pub assume_specification[ <Waker as Clone>::clone ](waker: &Waker) -> Waker;

/// The answer of a poll.
pub enum Poll<G> {
    /// The task got what it waited for.
    Ready(G),
    /// The task is parked and will be woken.
    Pending,
}

} // verus!
