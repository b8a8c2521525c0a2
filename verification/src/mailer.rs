//! The settings a report mailer is made from. Sending itself goes through the
//! mail service's client outside this library.

use vstd::prelude::*;

verus! {

/// Who upload reports are mailed to and from, and with which credentials.
/// (It has no `Debug`, so that the token is never printed.)
#[derive(PartialEq, Eq)]
pub struct SendgridMailer {
    pub token: String,
    pub to: String,
    pub from: String,
    pub subject: String,
}

impl SendgridMailer {
    /// A mailer sending as `from` to `to` under `subject`.
    pub fn new(token: String, from: String, to: String, subject: String) -> (m: SendgridMailer)
        ensures
            m.token == token,
            m.from == from,
            m.to == to,
            m.subject == subject,
    {
        SendgridMailer { token, to, from, subject }
    }
}

} // verus!
