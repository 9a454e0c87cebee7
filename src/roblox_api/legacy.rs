//! The cookie scheme: requests carry a session cookie and a cached
//! anti-forgery token, and a request that is refused with a fresh token is
//! sent once more with it.
use vstd::prelude::*;
use vstd::string::*;
use vstd::utf8::encode_utf8;
use crate::roblox_api::{ResolveError, RobloxApiError, RobloxCredentials, UploadResponse};
use crate::text::{chars_of, decimal, push_decimal, string_from_chars};

verus! {

/// A request header: its name and the bytes of its value.
#[derive(Clone, Debug)]
pub struct Header {
    pub name: String,
    pub value: Vec<u8>,
}

/// What to do with a response.
#[derive(Clone, Copy, Debug, PartialEq, Eq, Structural)]
pub enum CsrfStep {
    /// Send the request again, with the token now cached.
    Retry,
    /// Hand the response to the caller.
    Return,
}

/// The body of the upload endpoint's reply, before its failures are handled.
#[derive(Clone, Debug)]
pub struct RawUploadResponse {
    pub success: bool,
    pub message: Option<String>,
    pub asset_id: Option<u64>,
    pub backing_asset_id: Option<u64>,
}

/// The cookie-scheme client: the credentials and the cached anti-forgery
/// token.
#[derive(Clone)]
pub struct LegacyClient {
    pub credentials: RobloxCredentials,
    pub csrf_token: Option<Vec<u8>>,
}

/// The bytes held by an optional byte vector.
pub open spec fn opt_bytes(o: Option<Vec<u8>>) -> Option<Seq<u8>> {
    match o {
        Some(v) => Some(v@),
        None => None,
    }
}

/// The text held by an optional string.
pub open spec fn opt_text(o: Option<String>) -> Option<Seq<char>> {
    match o {
        Some(s) => Some(s@),
        None => None,
    }
}

/// A header as name text and value bytes.
pub open spec fn header_view(h: Header) -> (Seq<char>, Seq<u8>) {
    (h.name@, h.value@)
}

/// The headers a request carries: the session cookie where a token is known,
/// then the anti-forgery token where one is cached.
pub open spec fn headers_spec(token: Option<Seq<char>>, csrf: Option<Seq<u8>>) -> Seq<(Seq<char>, Seq<u8>)> {
    let cookie = match token {
        Some(t) => seq![("Cookie"@, encode_utf8(".ROBLOSECURITY="@) + encode_utf8(t))],
        None => Seq::empty(),
    };
    match csrf {
        Some(c) => cookie.push(("X-CSRF-Token"@, c)),
        None => cookie,
    }
}

/// The cached token and the step after a response with `status` that offered
/// the token `offered`, for the first sending (`retried` false) or the second.
/// Only a first sending refused with 403 and a fresh token is sent again.
pub open spec fn csrf_transition(
    cached: Option<Seq<u8>>,
    retried: bool,
    status: u16,
    offered: Option<Seq<u8>>,
) -> (Option<Seq<u8>>, CsrfStep) {
    if !retried && status == 403 && offered is Some {
        (offered, CsrfStep::Retry)
    } else {
        (cached, CsrfStep::Return)
    }
}

/// A first sending refused with 403 and a fresh token is sent exactly once
/// more: the second sending carries the fresh token, and whatever answers it
/// is returned.
pub proof fn lemma_csrf_retry_once(
    token: Option<Seq<char>>,
    cached: Option<Seq<u8>>,
    offered: Seq<u8>,
    second_status: u16,
    second_offered: Option<Seq<u8>>,
)
    ensures
        csrf_transition(cached, false, 403, Some(offered)) == (Some(offered), CsrfStep::Retry),
        headers_spec(token, Some(offered)).last() == ("X-CSRF-Token"@, offered),
        csrf_transition(Some(offered), true, second_status, second_offered).1 == CsrfStep::Return,
{
}

/// A response refused with 403 that offers no token is returned as it is,
/// and the cached token stays.
pub proof fn lemma_csrf_forbidden_without_token(cached: Option<Seq<u8>>, retried: bool)
    ensures
        csrf_transition(cached, retried, 403, None) == (cached, CsrfStep::Return),
{
}

/// The address of the upload endpoint, with the group that uploads go to.
pub open spec fn upload_url_spec(group_id: Option<u64>) -> Seq<char> {
    let base = "https://data.roblox.com/data/upload/json?assetTypeId=13"@;
    match group_id {
        Some(g) => base + "&groupId="@ + decimal(g as nat),
        None => base,
    }
}

/// HTTP's success range.
pub open spec fn is_success(status: u16) -> bool {
    200 <= status && status < 300
}

/// `r` is the content id that an upload reply names, or the failure it
/// stands for. `parsed` is the body read as JSON, or why it could not be.
pub open spec fn upload_reply_outcome(
    status: u16,
    body: String,
    parsed: Result<RawUploadResponse, String>,
    r: Result<u64, RobloxApiError>,
) -> bool {
    if !is_success(status) {
        r == Err::<u64, RobloxApiError>(RobloxApiError::ResponseError { status, body })
    } else {
        match parsed {
            Err(message) => r == Err::<u64, RobloxApiError>(RobloxApiError::BadResponseJson { body, message }),
            Ok(raw) => if raw.success {
                match raw.asset_id {
                    Some(id) => r == Ok::<u64, RobloxApiError>(id),
                    None => r matches Err(RobloxApiError::BadResponseJson { body: b, message: m })
                        && b == body && m@ == "the reply has no asset id"@,
                }
            } else {
                match raw.message {
                    Some(message) => r == Err::<u64, RobloxApiError>(RobloxApiError::ApiError { message }),
                    None => r matches Err(RobloxApiError::BadResponseJson { body: b, message: m })
                        && b == body && m@ == "the reply has no message"@,
                }
            },
        }
    }
}

/// Reads the reply of the upload endpoint: its status, its body, and the body
/// read as JSON or why it could not be.
pub fn interpret_upload_reply(status: u16, body: String, parsed: Result<RawUploadResponse, String>) -> (r: Result<u64, RobloxApiError>)
    ensures
        upload_reply_outcome(status, body, parsed, r),
{
    if !(200 <= status && status < 300) {
        return Err(RobloxApiError::ResponseError { status, body });
    }
    match parsed {
        Err(message) => Err(RobloxApiError::BadResponseJson { body, message }),
        Ok(raw) => {
            if raw.success {
                match raw.asset_id {
                    Some(id) => Ok(id),
                    None => Err(RobloxApiError::BadResponseJson {
                        body,
                        message: String::from_str("the reply has no asset id"),
                    }),
                }
            } else {
                match raw.message {
                    Some(message) => Err(RobloxApiError::ApiError { message }),
                    None => Err(RobloxApiError::BadResponseJson {
                        body,
                        message: String::from_str("the reply has no message"),
                    }),
                }
            }
        },
    }
}

/// The ids of a finished upload: the content id the endpoint named, and the
/// public id that its descriptor resolved to.
pub fn finish_upload(backing_asset_id: u64, resolved: Result<u64, ResolveError>) -> (r: Result<UploadResponse, RobloxApiError>)
    ensures
        match resolved {
            Ok(public) => r == Ok::<UploadResponse, RobloxApiError>(UploadResponse { asset_id: public, backing_asset_id }),
            Err(e) => r == Err::<UploadResponse, RobloxApiError>(RobloxApiError::Descriptor(e)),
        },
{
    match resolved {
        Ok(public) => Ok(UploadResponse { asset_id: public, backing_asset_id }),
        Err(e) => Err(RobloxApiError::Descriptor(e)),
    }
}

/// The value of the session cookie header for `token`.
fn cookie_value(token: &String) -> (r: Vec<u8>)
    ensures
        r@ == encode_utf8(".ROBLOSECURITY="@) + encode_utf8(token@),
{
    let mut value = ".ROBLOSECURITY=".as_bytes_vec();
    let t = token.as_str().as_bytes_vec();
    let mut i: usize = 0;
    let ghost start = value@;
    while i < t.len()
        invariant
            i <= t@.len(),
            value@ == start + t@.subrange(0, i as int),
        decreases t@.len() - i,
    {
        value.push(t[i]);
        i = i + 1;
        assert(value@ =~= start + t@.subrange(0, i as int));
    }
    assert(t@.subrange(0, i as int) =~= t@);
    value
}

impl LegacyClient {
    /// A cookie-scheme client with no cached token.
    pub fn new(credentials: RobloxCredentials) -> (r: LegacyClient)
        ensures
            r.credentials == credentials,
            r.csrf_token is None,
    {
        LegacyClient { credentials, csrf_token: None }
    }

    /// The authentication headers for the next request.
    pub fn request_headers(&self) -> (r: Vec<Header>)
        ensures
            r@.map_values(|h: Header| header_view(h)) == headers_spec(
                opt_text(self.credentials.token),
                opt_bytes(self.csrf_token),
            ),
    {
        let mut headers: Vec<Header> = Vec::new();
        match &self.credentials.token {
            Some(t) => {
                headers.push(Header { name: String::from_str("Cookie"), value: cookie_value(t) });
            },
            None => {},
        }
        match &self.csrf_token {
            Some(c) => {
                headers.push(Header { name: String::from_str("X-CSRF-Token"), value: c.clone() });
            },
            None => {},
        }
        assert(headers@.map_values(|h: Header| header_view(h)) =~= headers_spec(
            opt_text(self.credentials.token),
            opt_bytes(self.csrf_token),
        ));
        headers
    }

    /// Takes the status of a response, and the anti-forgery token it offered,
    /// for the first sending of a request (`retried` false) or the second.
    pub fn after_response(&mut self, retried: bool, status: u16, offered: Option<Vec<u8>>) -> (r: CsrfStep)
        ensures
            (opt_bytes(final(self).csrf_token), r) == csrf_transition(
                opt_bytes(old(self).csrf_token),
                retried,
                status,
                opt_bytes(offered),
            ),
            final(self).credentials == old(self).credentials,
    {
        if !retried && status == 403 && offered.is_some() {
            self.csrf_token = offered;
            CsrfStep::Retry
        } else {
            CsrfStep::Return
        }
    }

    /// The address of the upload endpoint for this client's credentials.
    pub fn upload_url(&self) -> (r: String)
        ensures
            r@ == upload_url_spec(self.credentials.group_id),
    {
        let mut url = chars_of("https://data.roblox.com/data/upload/json?assetTypeId=13");
        match self.credentials.group_id {
            Some(g) => {
                let sep = chars_of("&groupId=");
                let mut i: usize = 0;
                let ghost start = url@;
                while i < sep.len()
                    invariant
                        i <= sep@.len(),
                        url@ == start + sep@.subrange(0, i as int),
                    decreases sep@.len() - i,
                {
                    url.push(sep[i]);
                    i = i + 1;
                    assert(url@ =~= start + sep@.subrange(0, i as int));
                }
                assert(sep@.subrange(0, i as int) =~= sep@);
                push_decimal(&mut url, g);
            },
            None => {},
        }
        string_from_chars(&url)
    }
}

} // verus!
