//! Messages exchanged with the web service.

use vstd::prelude::*;

verus! {

/// The services a user can link their account to.
#[derive(Debug, PartialEq, Eq, Clone, Copy)]
pub enum Oauth2Provider {
    Dropbox,
    YouTube,
    GoogleDrive,
    Vimeo,
}

/// A sign in request.
#[derive(Debug, PartialEq, Eq)]
pub struct JsonSignIn {
    pub email: String,
    pub password: String,
}

/// The answer to a sign in request.
#[derive(Debug, PartialEq, Eq)]
pub enum JsonSignInResp {
    Token(String),
    Error(String),
}

/// How `{:?}` renders a string: quoted, with its characters escaped as
/// `str`'s `Debug` escapes them.
pub uninterp spec fn debug_quoted(s: Seq<char>) -> Seq<char>;

/// Renders `s` with `{:?}` (`str`'s `Debug`). Trusted to depend on the text
/// alone (named by `debug_quoted`); the escaping rules are not stated.
#[verifier::external_body]
pub(crate) fn debug_text(s: &str) -> (r: String)
    ensures
        r@ == debug_quoted(s@),
{
    format!("{:?}", s)
}

impl JsonSignInResp {
    /// The session token, or the service's error message rendered with
    /// `{:?}`.
    pub fn into_result(self) -> (r: Result<String, String>)
        ensures
            match self {
                JsonSignInResp::Token(t) => r == Ok::<String, String>(t),
                JsonSignInResp::Error(e) => r is Err && r->Err_0@ == debug_quoted(e@),
            },
    {
        match self {
            JsonSignInResp::Token(token) => Ok(token),
            JsonSignInResp::Error(error) => Err(debug_text(error.as_str())),
        }
    }
}

/// The answer to a token refresh.
#[derive(Debug, PartialEq, Eq)]
pub enum RefreshToken {
    Token(String),
    NotConfigured,
    Error(String),
}

/// A request to notify the user.
#[derive(Debug, PartialEq, Eq)]
pub struct SendNotification {
    pub message: String,
}

/// The answer to a notification request.
#[derive(Debug, PartialEq, Eq)]
pub enum SendNotificationResp {
    Sent,
    NotConfigured,
    Error(String),
}

} // verus!
