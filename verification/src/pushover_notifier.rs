//! The settings a push notifier is made from. Delivery goes through the
//! notification service's client outside this library.

use vstd::prelude::*;

verus! {

/// Who push notifications go to, and the application token they are sent with.
#[derive(Debug, PartialEq, Eq)]
pub struct PushoverNotifier {
    pub recipient: String,
    pub token: String,
}

impl PushoverNotifier {
    /// A notifier sending to `recipient` with the application `token`.
    pub fn new(token: String, recipient: String) -> (n: PushoverNotifier)
        ensures
            n.token == token,
            n.recipient == recipient,
    {
        PushoverNotifier { recipient, token }
    }
}

} // verus!
