//! The vimeo backend: the request that creates a video to upload and the
//! header it authenticates with. Transfers happen outside this library.

use vstd::prelude::*;

use crate::text::{decimal, push_decimal, push_str};

verus! {

/// Where videos are created.
pub const VIDEOS_ENDPOINT: &'static str = "https://api.vimeo.com/me/videos";

/// The API version the client asks for.
pub const VIMEO_ACCEPT: &'static str = "application/vnd.vimeo.*+json;version=3.4";

/// A client for the vimeo API.
#[derive(Debug, PartialEq, Eq)]
pub struct VimeoClient {
    pub token: String,
}

impl VimeoClient {
    /// A client authenticated by `token`.
    pub fn new(token: String) -> (c: VimeoClient)
        ensures
            c.token == token,
    {
        VimeoClient { token }
    }

    /// The body of the request that creates a video of `size` bytes to be
    /// uploaded with tus: `{"upload":{"approach":"tus","size":SIZE}}`.
    pub fn create_upload_body(size: u64) -> (b: String)
        ensures
            b@ == "{\"upload\":{\"approach\":\"tus\",\"size\":"@ + decimal(size as nat) + "}}"@,
    {
        let mut b = String::new();
        push_str(&mut b, "{\"upload\":{\"approach\":\"tus\",\"size\":");
        push_decimal(&mut b, size);
        push_str(&mut b, "}}");
        b
    }

    /// The `Authorization` header value: `bearer TOKEN`.
    pub fn authorization(&self) -> (h: String)
        ensures
            h@ == "bearer "@ + self.token@,
    {
        let mut h = String::new();
        push_str(&mut h, "bearer ");
        push_str(&mut h, self.token.as_str());
        h
    }
}

} // verus!
