//! The decisions a client of the web service makes on its answers. Requests
//! themselves are made outside this library.

use vstd::prelude::*;

use crate::config::{url_parse, url_parsed, AccessToken};
use crate::messages::{debug_quoted, debug_text, JsonSignIn, JsonSignInResp, SendNotification, SendNotificationResp};

verus! {

/// Why a request to the web service failed.
#[derive(Debug, PartialEq, Eq)]
pub enum ClientError {
    /// Username or password was incorrect.
    InvalidLogin,
    /// The service failed, with its message.
    ServerError(String),
    /// An authenticated request was made without a token.
    MissingToken,
}

/// Why a client for the web service could not be made.
#[derive(Debug, PartialEq)]
pub enum ClientSetupError {
    /// The base is not a url.
    InvalidUrl(url::ParseError),
    /// Release builds only talk to the service over https.
    InsecureUrl,
}

/// What `url::Url::set_path` makes of the url `base` with its path replaced
/// by `path`, serialized; nothing when `base` is not a url.
pub uninterp spec fn url_path_set(base: Seq<char>, path: Seq<char>) -> Option<Seq<char>>;

/// Parses `base` with `url::Url::parse`, replaces its path with
/// `url::Url::set_path`, and serializes it. Trusted to depend on the two
/// texts alone (named by `url_path_set`).
#[verifier::external_body]
fn url_with_path(base: &str, path: &str) -> (r: Option<String>)
    ensures
        match r {
            Some(u) => url_path_set(base@, path@) == Some(u@),
            None => url_path_set(base@, path@) is None,
        },
{
    match url::Url::parse(base) {
        Ok(mut u) => {
            u.set_path(path);
            Some(u.to_string())
        },
        Err(_) => None,
    }
}

/// A client of the web service: where it is, and the token it authenticates
/// with once one is loaded.
#[derive(Debug)]
pub struct ArchiverClient {
    pub base: String,
    pub token: Option<AccessToken>,
}

/// The content type of the requests the client sends.
pub const JSON_CONTENT_TYPE: &'static str = "application/json";

impl ArchiverClient {
    /// A client of the service at `base`, with no token. Fails when `base`
    /// is not a url, or, in a release build, when it is not https.
    pub fn new(base: &str, release_build: bool) -> (r: Result<ArchiverClient, ClientSetupError>)
        ensures
            match url_parsed(base@) {
                Err(e) => r == Err::<ArchiverClient, ClientSetupError>(ClientSetupError::InvalidUrl(e)),
                Ok(u) => if release_build && u.1 != "https"@ {
                    r matches Err(ClientSetupError::InsecureUrl)
                } else {
                    r is Ok && r->Ok_0.base@ == u.0 && r->Ok_0.token is None
                },
            },
    {
        match url_parse(base) {
            Err(e) => Err(ClientSetupError::InvalidUrl(e)),
            Ok((serialized, scheme)) => {
                let https = "https".to_owned();
                if release_build && !crate::text::same_string(&scheme, &https) {
                    Err(ClientSetupError::InsecureUrl)
                } else {
                    Ok(ArchiverClient { base: serialized, token: None })
                }
            },
        }
    }

    /// Authenticates later requests with `token`.
    pub fn load_token(&mut self, token: AccessToken)
        ensures
            final(self).base == old(self).base,
            final(self).token == Some(token),
    {
        self.token = Some(token);
    }

    /// The url of `path` on the service.
    pub fn endpoint(&self, path: &str) -> (u: Option<String>)
        ensures
            match u {
                Some(x) => url_path_set(self.base@, path@) == Some(x@),
                None => url_path_set(self.base@, path@) is None,
            },
    {
        url_with_path(self.base.as_str(), path)
    }

    /// The `Authorization` header of an authenticated request; refused when
    /// no token is loaded.
    pub fn add_authorization(&self) -> (r: Result<String, ClientError>)
        ensures
            match self.token {
                Some(t) => r is Ok && r->Ok_0@ == "Bearer: "@ + t@,
                None => r == Err::<String, ClientError>(ClientError::MissingToken),
            },
    {
        match &self.token {
            Some(t) => Ok(t.as_authorization_header()),
            None => Err(ClientError::MissingToken),
        }
    }

    /// The content type header of the client's requests.
    pub fn json_content_type(&self) -> (t: &'static str)
        ensures
            t@ == JSON_CONTENT_TYPE@,
    {
        JSON_CONTENT_TYPE
    }

    /// The sign in request for `email` and `password`: the endpoint
    /// `/json/signin` and what is sent to it.
    pub fn login(&self, email: &str, password: &str) -> (r: (Option<String>, JsonSignIn))
        ensures
            match r.0 {
                Some(x) => url_path_set(self.base@, "/json/signin"@) == Some(x@),
                None => url_path_set(self.base@, "/json/signin"@) is None,
            },
            r.1.email@ == email@,
            r.1.password@ == password@,
    {
        (self.endpoint("/json/signin"), JsonSignIn { email: email.to_owned(), password: password.to_owned() })
    }

    /// The notification request for `msg`: the endpoint
    /// `/notification/send`, the authorization header, and what is sent;
    /// refused when no token is loaded.
    pub fn send_notification(&self, msg: &str) -> (r: Result<(Option<String>, String, SendNotification), ClientError>)
        ensures
            match self.token {
                Some(t) => r is Ok && r->Ok_0.1@ == "Bearer: "@ + t@ && r->Ok_0.2.message@ == msg@ && match r->Ok_0.0 {
                    Some(x) => url_path_set(self.base@, "/notification/send"@) == Some(x@),
                    None => url_path_set(self.base@, "/notification/send"@) is None,
                },
                None => r == Err::<(Option<String>, String, SendNotification), ClientError>(ClientError::MissingToken),
            },
    {
        let auth = match self.add_authorization() {
            Ok(a) => a,
            Err(e) => return Err(e),
        };
        Ok((self.endpoint("/notification/send"), auth, SendNotification { message: msg.to_owned() }))
    }

    /// The configuration request: the endpoint `/config` and the
    /// authorization header; refused when no token is loaded.
    pub fn fetch_config(&self) -> (r: Result<(Option<String>, String), ClientError>)
        ensures
            match self.token {
                Some(t) => r is Ok && r->Ok_0.1@ == "Bearer: "@ + t@ && match r->Ok_0.0 {
                    Some(x) => url_path_set(self.base@, "/config"@) == Some(x@),
                    None => url_path_set(self.base@, "/config"@) is None,
                },
                None => r == Err::<(Option<String>, String), ClientError>(ClientError::MissingToken),
            },
    {
        let auth = match self.add_authorization() {
            Ok(a) => a,
            Err(e) => return Err(e),
        };
        Ok((self.endpoint("/config"), auth))
    }
}

/// The body of an answer, unless the service reported an internal error
/// (status 500), in which case the body is its message.
pub fn check_status(status: u16, body: String) -> (r: Result<String, ClientError>)
    ensures
        status == 500 ==> r == Err::<String, ClientError>(ClientError::ServerError(body)),
        status != 500 ==> r == Ok::<String, ClientError>(body),
{
    if status == 500 {
        Err(ClientError::ServerError(body))
    } else {
        Ok(body)
    }
}

/// The session token a sign in answer carries; a refused sign in is an
/// invalid login.
pub fn login_result(resp: JsonSignInResp) -> (r: Result<String, ClientError>)
    ensures
        match resp {
            JsonSignInResp::Token(t) => r == Ok::<String, ClientError>(t),
            JsonSignInResp::Error(_) => r == Err::<String, ClientError>(ClientError::InvalidLogin),
        },
{
    match resp {
        JsonSignInResp::Token(s) => Ok(s),
        JsonSignInResp::Error(_) => Err(ClientError::InvalidLogin),
    }
}

/// Whether a notification request went through: sent, or not configured
/// (which is no failure); otherwise the service's error message rendered
/// with `{:?}`.
pub fn notification_result(resp: SendNotificationResp) -> (r: Result<(), String>)
    ensures
        match resp {
            SendNotificationResp::Sent => r is Ok,
            SendNotificationResp::NotConfigured => r is Ok,
            SendNotificationResp::Error(e) => r is Err && r->Err_0@ == debug_quoted(e@),
        },
{
    match resp {
        SendNotificationResp::Sent => Ok(()),
        SendNotificationResp::NotConfigured => Ok(()),
        SendNotificationResp::Error(e) => Err(debug_text(e.as_str())),
    }
}

} // verus!
