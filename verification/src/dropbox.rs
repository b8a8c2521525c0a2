//! The parts of the dropbox backend that are decisions and text: request
//! urls and headers, reading content hashes, the upload cursor, and whether a
//! file is already upstream. The HTTP exchange is made outside this library.

use vstd::prelude::*;

use crate::text::{push_decimal, push_str};
use crate::version::VERSION;

verus! {

/// Uploads go up in chunks of this many bytes.
pub const DEFAULT_CHUNK_SIZE: usize = 4 * 1024 * 1024;

#[verifier::external_type_specification]
#[verifier::external_body]
pub struct ExFromHexError(hex::FromHexError);

/// Whether `c` is a hexadecimal digit (either case).
pub open spec fn is_hex_digit(c: char) -> bool {
    ('0' <= c && c <= '9') || ('a' <= c && c <= 'f') || ('A' <= c && c <= 'F')
}

/// The value of a hexadecimal digit.
pub open spec fn hex_value(c: char) -> int {
    if '0' <= c && c <= '9' {
        c as int - '0' as int
    } else if 'a' <= c && c <= 'f' {
        c as int - 'a' as int + 10
    } else {
        c as int - 'A' as int + 10
    }
}

/// Whether `s` is 32 bytes written as 64 hexadecimal digits.
pub open spec fn is_hex_hash(s: Seq<char>) -> bool {
    s.len() == 64 && forall|i: int| 0 <= i < 64 ==> is_hex_digit(#[trigger] s[i])
}

/// Calls `<[u8; 32] as hex::FromHex>::from_hex` on the bytes of `s`. As the hex
/// source decodes: it succeeds exactly on 64 hexadecimal digits of either
/// case, each pair of digits giving one byte, high digit first. Which error
/// it reports otherwise is not stated.
#[verifier::external_body]
fn hex_to_hash(s: &str) -> (r: Result<[u8; 32], hex::FromHexError>)
    ensures
        r is Ok <==> is_hex_hash(s@),
        r is Ok ==> forall|i: int| 0 <= i < 32 ==> #[trigger] r->Ok_0@[i] as int == 16 * hex_value(s@[2 * i]) + hex_value(s@[2 * i + 1]),
{
    hex::FromHex::from_hex(s)
}

/// What dropbox reports about a stored file.
#[derive(Debug, PartialEq, Eq)]
pub struct MetadataResponse {
    pub tag: String,
    pub name: String,
    pub id: String,
    pub client_modified: String,
    pub server_modified: String,
    pub rev: String,
    pub size: usize,
    pub path_lower: String,
    pub path_display: String,
    pub content_hash: [u8; 32],
}

impl MetadataResponse {
    /// The dropbox content hash of the stored file.
    pub fn content_hash(&self) -> (h: &[u8; 32])
        ensures
            *h == self.content_hash,
    {
        &self.content_hash
    }

    /// Reads a content hash as dropbox writes it: 64 hexadecimal digits.
    pub fn hash_from_hex(s: &str) -> (r: Result<[u8; 32], hex::FromHexError>)
        ensures
            r is Ok <==> is_hex_hash(s@),
            r is Ok ==> forall|i: int| 0 <= i < 32 ==> #[trigger] r->Ok_0@[i] as int == 16 * hex_value(s@[2 * i]) + hex_value(s@[2 * i + 1]),
    {
        hex_to_hash(s)
    }
}

/// What dropbox reports about a finished upload.
#[derive(Debug, PartialEq, Eq)]
pub struct UploadMetadataResponse {
    pub name: String,
    pub path_lower: String,
    pub path_display: String,
    pub id: String,
    pub client_modified: String,
    pub server_modified: String,
    pub rev: String,
    pub size: usize,
    pub content_hash: String,
}

/// What dropbox reports when an upload session starts.
#[derive(Debug, PartialEq, Eq)]
pub struct StartUploadSessionResponse {
    pub session_id: String,
}

/// Where an upload session has got to.
#[derive(Debug, PartialEq, Eq)]
pub struct Cursor {
    pub session_id: String,
    pub offset: u64,
}

impl Cursor {
    /// The start of the session `session_id`.
    pub fn start(session_id: String) -> (c: Cursor)
        ensures
            c.session_id == session_id,
            c.offset == 0,
    {
        Cursor { session_id, offset: 0 }
    }

    /// Records that `sent` more bytes were appended.
    pub fn advance(&mut self, sent: usize)
        requires
            old(self).offset + sent <= u64::MAX,
        ensures
            final(self).offset == old(self).offset + sent,
            final(self).session_id == old(self).session_id,
    {
        self.offset = self.offset + sent as u64;
    }
}

/// Whether two content hashes are the same.
pub fn same_hash(a: &[u8; 32], b: &[u8; 32]) -> (r: bool)
    ensures
        r == (a@ == b@),
{
    let mut i: usize = 0;
    while i < 32
        invariant
            i <= 32,
            a@.len() == 32,
            b@.len() == 32,
            forall|j: int| 0 <= j < i ==> a@[j] == b@[j],
        decreases 32 - i,
    {
        if a[i] != b[i] {
            return false;
        }
        i = i + 1;
    }
    assert(a@ =~= b@);
    true
}

/// The dropbox client's settings: its token and the user agent it sends.
#[derive(Debug, PartialEq, Eq)]
pub struct DropboxFilesClient {
    pub token: String,
    pub user_agent: String,
}

impl DropboxFilesClient {
    /// A client authenticating with `token`, sending `archiver/VERSION` as its
    /// user agent.
    pub fn new(token: String) -> (c: DropboxFilesClient)
        ensures
            c.token == token,
            c.user_agent@ == "archiver/"@ + VERSION@,
    {
        let mut user_agent = String::new();
        push_str(&mut user_agent, "archiver/");
        push_str(&mut user_agent, VERSION);
        DropboxFilesClient { token, user_agent }
    }

    /// The `Authorization` header value: `Bearer TOKEN`.
    pub fn bearer_token(&self) -> (h: String)
        ensures
            h@ == "Bearer "@ + self.token@,
    {
        let mut h = String::new();
        push_str(&mut h, "Bearer ");
        push_str(&mut h, self.token.as_str());
        h
    }

    /// The url of an endpoint on a dropbox api host:
    /// `https://HOST.dropboxapi.com/ENDPOINT`.
    pub fn url(host: &str, endpoint: &str) -> (u: String)
        ensures
            u@ == "https://"@ + host@ + ".dropboxapi.com/"@ + endpoint@,
    {
        let mut u = String::new();
        push_str(&mut u, "https://");
        push_str(&mut u, host);
        push_str(&mut u, ".dropboxapi.com/");
        push_str(&mut u, endpoint);
        u
    }

    /// Whether a file is already upstream, given what dropbox reported about
    /// the remote path: it is when dropbox knows the path and its content hash
    /// is the file's.
    pub fn already_uploaded(metadata: &Option<MetadataResponse>, content_hash: &[u8; 32]) -> (r: bool)
        ensures
            r == match metadata {
                Some(m) => m.content_hash@ == content_hash@,
                None => false,
            },
    {
        match metadata {
            Some(m) => same_hash(m.content_hash(), content_hash),
            None => false,
        }
    }

    /// The name of this backend.
    pub fn name(&self) -> (n: &'static str)
        ensures
            n@ == "dropbox"@,
    {
        "dropbox"
    }
}

/// The `Content-Type` of a request body: JSON, or raw bytes.
pub fn content_type(json: bool) -> (t: &'static str)
    ensures
        json ==> t@ == "application/json"@,
        !json ==> t@ == "application/octet-stream"@,
{
    if json {
        "application/json"
    } else {
        "application/octet-stream"
    }
}

} // verus!
