//! What can be sent a message.

use vstd::prelude::*;

verus! {

pub trait Sendable {
    /// Sends the message with the given selector.
    fn send(&mut self, selector: String);
}

} // verus!
