//! What the two remote-client schemes share: upload data, credentials, the
//! error taxonomy, the choice of scheme, and the resolution of a content id to
//! its public id from the asset-delivery descriptor.
use vstd::prelude::*;
use crate::text::{chars_of, decimal, first_occurrence_from, occurs_at, find_from, matches_at,
    lemma_first_occurrence_found,
    parse_unsigned, parse_unsigned_spec, push_decimal, string_from_chars};
use xml::reader::XmlEvent;

pub mod legacy;
pub mod open_cloud;

verus! {

/// An image to upload, with the name and description the asset gets.
#[derive(Clone, Debug)]
pub struct ImageUploadData {
    pub image_data: Vec<u8>,
    pub name: String,
    pub description: String,
}

/// The ids of an uploaded asset: the public one used in references, and the
/// one naming the underlying content.
#[derive(Clone, Copy, Debug, PartialEq, Eq, Structural)]
pub struct UploadResponse {
    pub asset_id: u64,
    pub backing_asset_id: u64,
}

/// Authentication for the remote service: a session cookie token or an API
/// key, and the creator that uploads are made for. It has no `Debug`, so
/// that the secrets are never printed.
#[derive(Clone)]
pub struct RobloxCredentials {
    pub token: Option<String>,
    pub api_key: Option<String>,
    pub user_id: Option<u64>,
    pub group_id: Option<u64>,
}

/// Why a check of the asset-delivery descriptor failed.
#[derive(Clone, Copy, Debug, PartialEq, Eq, Structural)]
pub enum ResolveError {
    /// The document's root element is not `roblox`.
    UnknownRoot,
    /// No `url` element follows the root.
    MissingUrl,
    /// The `url` element is not followed by text.
    ExpectedCharacters,
    /// The url text does not hold the asset marker.
    MissingAssetId,
    /// What follows the marker is not an unsigned 64-bit number.
    MalformedAssetId,
}

/// The failures of the remote client.
#[derive(Clone, Debug)]
pub enum RobloxApiError {
    Http { message: String },
    ApiError { message: String },
    BadResponseJson { body: String, message: String },
    ResponseError { status: u16, body: String },
    MissingCsrfToken,
    AssetGetFailed,
    MissingAuth,
    AmbiguousCreatorType,
    MissingOperationPath,
    MalformedOperationPath,
    RbxCloud { message: String },
    MalformedAssetId,
    Descriptor(ResolveError),
}

/// The two remote-client schemes.
#[derive(Clone, Copy, Debug, PartialEq, Eq, Structural)]
pub enum ClientKind {
    /// Session cookie with an anti-forgery token.
    Legacy,
    /// API key with asynchronous operations.
    OpenCloud,
}

/// One event of an XML document, as far as the descriptor check reads it.
#[derive(Clone, Debug)]
pub enum XmlItem {
    StartDocument,
    EndDocument,
    StartElement { local_name: String, namespace: Option<String>, prefix: Option<String> },
    Characters(String),
    Malformed,
    Other,
}

/// The events that an XML reader with its default configuration gives for
/// `bytes`, up to and including the end of the document or the first error.
pub uninterp spec fn xml_events_of(bytes: Seq<u8>) -> Seq<XmlItem>;

/// Relies on `xml::EventReader` iterated to its end: each event, kept as far
/// as the descriptor check reads it.
#[verifier::external_body]
fn xml_events(bytes: &Vec<u8>) -> (r: Vec<XmlItem>)
    ensures
        r@ == xml_events_of(bytes@),
{
    let mut items = Vec::new();
    for event in xml::EventReader::new(bytes.as_slice()) {
        items.push(match event {
            Ok(XmlEvent::StartDocument { .. }) => XmlItem::StartDocument,
            Ok(XmlEvent::EndDocument) => XmlItem::EndDocument,
            Ok(XmlEvent::StartElement { name, .. }) => XmlItem::StartElement {
                local_name: name.local_name, namespace: name.namespace, prefix: name.prefix },
            Ok(XmlEvent::Characters(text)) => XmlItem::Characters(text),
            Ok(_) => XmlItem::Other,
            Err(_) => XmlItem::Malformed,
        });
    }
    items
}

/// Which scheme a set of credentials selects: the API key wins, a token alone
/// selects the cookie scheme, neither is `MissingAuth`.
pub open spec fn preferred_kind(creds: RobloxCredentials) -> Result<ClientKind, RobloxApiError> {
    if creds.api_key is Some {
        Ok(ClientKind::OpenCloud)
    } else if creds.token is Some {
        Ok(ClientKind::Legacy)
    } else {
        Err(RobloxApiError::MissingAuth)
    }
}

/// Selects the client scheme for `credentials`.
pub fn get_preferred_client(credentials: &RobloxCredentials) -> (r: Result<ClientKind, RobloxApiError>)
    ensures
        r == preferred_kind(*credentials),
{
    if credentials.api_key.is_some() {
        Ok(ClientKind::OpenCloud)
    } else if credentials.token.is_some() {
        Ok(ClientKind::Legacy)
    } else {
        Err(RobloxApiError::MissingAuth)
    }
}

/// The asset-delivery address of the descriptor of `id`.
pub open spec fn asset_delivery_url_spec(id: u64) -> Seq<char> {
    "https://assetdelivery.roblox.com/v1/asset/?id="@ + decimal(id as nat)
}

/// The asset-delivery address of the descriptor of `id`.
pub fn asset_delivery_url(id: u64) -> (r: String)
    ensures
        r@ == asset_delivery_url_spec(id),
{
    let mut out = chars_of("https://assetdelivery.roblox.com/v1/asset/?id=");
    push_decimal(&mut out, id);
    string_from_chars(&out)
}

/// The marker that precedes the public id in a descriptor's url.
pub open spec fn asset_marker() -> Seq<char> {
    "http://www.roblox.com/asset/?id="@
}

/// `item` starts an element called `name`, without namespace or prefix.
pub open spec fn is_element_named(item: XmlItem, name: Seq<char>) -> bool {
    match item {
        XmlItem::StartElement { local_name, namespace, prefix } => local_name@ == name
            && namespace is None && prefix is None,
        _ => false,
    }
}

/// The first position at or after `i` of an element called `name`.
pub open spec fn first_element_from(events: Seq<XmlItem>, name: Seq<char>, i: int) -> Option<int>
    decreases events.len() - i,
{
    if i < 0 || i >= events.len() {
        None
    } else if is_element_named(events[i], name) {
        Some(i)
    } else {
        first_element_from(events, name, i + 1)
    }
}

/// The public id written in a descriptor's url text: what follows the first
/// asset marker, up to the next marker or the end, read as a number.
pub open spec fn url_asset_id(text: Seq<char>) -> Result<u64, ResolveError> {
    let m = asset_marker();
    match first_occurrence_from(text, m, 0) {
        None => Err(ResolveError::MissingAssetId),
        Some(p) => {
            let start = p + m.len();
            let end = match first_occurrence_from(text, m, start) {
                Some(q) => q,
                None => text.len() as int,
            };
            match parse_unsigned_spec(text.subrange(start, end), u64::MAX as nat) {
                Some(v) => Ok(v as u64),
                None => Err(ResolveError::MalformedAssetId),
            }
        },
    }
}

/// What a descriptor whose events are `events` resolves `fallback` to. A
/// stream that does not open as a document with a first element is no XML
/// descriptor and leaves `fallback` unchanged; a document of another shape is
/// an error.
pub open spec fn descriptor_outcome(events: Seq<XmlItem>, fallback: u64) -> Result<u64, ResolveError> {
    if !(events.len() > 0 && events[0] is StartDocument) {
        Ok(fallback)
    } else if !(events.len() > 1 && events[1] is StartElement) {
        Ok(fallback)
    } else if !is_element_named(events[1], "roblox"@) {
        Err(ResolveError::UnknownRoot)
    } else {
        match first_element_from(events, "url"@, 2) {
            None => Err(ResolveError::MissingUrl),
            Some(k) => if k + 1 < events.len() && events[k + 1] is Characters {
                url_asset_id(events[k + 1]->Characters_0@)
            } else {
                Err(ResolveError::ExpectedCharacters)
            },
        }
    }
}

/// A response that does not open as an XML document with a first element
/// resolves to the id it was asked for, unchanged and without error.
pub proof fn lemma_descriptor_fallback(events: Seq<XmlItem>, asset_id: u64)
    requires
        !(events.len() > 0 && events[0] is StartDocument) || !(events.len() > 1
            && events[1] is StartElement),
    ensures
        descriptor_outcome(events, asset_id) == Ok::<u64, ResolveError>(asset_id),
{
}

/// A descriptor whose root is `roblox` and whose first `url` element holds the
/// asset marker followed by a number resolves to that number.
pub proof fn lemma_descriptor_embedded_id(events: Seq<XmlItem>, asset_id: u64, k: int)
    requires
        events.len() > 1,
        events[0] is StartDocument,
        is_element_named(events[1], "roblox"@),
        first_element_from(events, "url"@, 2) == Some(k),
        k + 1 < events.len(),
        events[k + 1] is Characters,
    ensures
        descriptor_outcome(events, asset_id) == url_asset_id(events[k + 1]->Characters_0@),
{
}

fn same_chars(a: &Vec<char>, b: &Vec<char>) -> (r: bool)
    ensures
        r == (a@ == b@),
{
    if a.len() != b.len() {
        return false;
    }
    let r = matches_at(a, b, 0);
    assert(a@.subrange(0, b@.len() as int) =~= a@);
    r
}

fn is_named(item: &XmlItem, name: &Vec<char>) -> (r: bool)
    ensures
        r == is_element_named(*item, name@),
{
    match item {
        XmlItem::StartElement { local_name, namespace, prefix } => {
            if namespace.is_some() || prefix.is_some() {
                return false;
            }
            let local = chars_of(local_name.as_str());
            same_chars(&local, name)
        },
        _ => false,
    }
}

/// The public id in the url text of a descriptor.
pub fn parse_url_asset_id(text: &str) -> (r: Result<u64, ResolveError>)
    ensures
        r == url_asset_id(text@),
{
    let t = chars_of(text);
    let m = chars_of("http://www.roblox.com/asset/?id=");
    match find_from(&t, &m, 0) {
        None => Err(ResolveError::MissingAssetId),
        Some(p) => {
            proof {
                lemma_first_occurrence_found(t@, m@, 0);
                let ps = first_occurrence_from(t@, m@, 0)->0;
                assert(occurs_at(t@, m@, ps));
                assert(p as int == ps);
                assert(p + m@.len() <= t@.len());
            }
            let start = p + m.len();
            proof {
                lemma_first_occurrence_found(t@, m@, start as int);
            }
            let end = match find_from(&t, &m, start) {
                Some(q) => {
                    proof {
                        let qs = first_occurrence_from(t@, m@, start as int)->0;
                        assert(occurs_at(t@, m@, qs));
                        assert(q as int == qs);
                    }
                    q
                },
                None => t.len(),
            };
            let mut piece: Vec<char> = Vec::new();
            let mut i: usize = start;
            while i < end
                invariant
                    start <= i <= end,
                    end <= t@.len(),
                    piece@ == t@.subrange(start as int, i as int),
                decreases end - i,
            {
                piece.push(t[i]);
                i = i + 1;
                assert(piece@ =~= t@.subrange(start as int, i as int));
            }
            match parse_unsigned(&piece, u64::MAX) {
                Some(v) => Ok(v),
                None => Err(ResolveError::MalformedAssetId),
            }
        },
    }
}

/// What the events of a descriptor resolve `fallback` to.
pub fn interpret_descriptor(events: &Vec<XmlItem>, fallback: u64) -> (r: Result<u64, ResolveError>)
    ensures
        r == descriptor_outcome(events@, fallback),
{
    if events.len() == 0 {
        return Ok(fallback);
    }
    match &events[0] {
        XmlItem::StartDocument => {},
        _ => {
            return Ok(fallback);
        },
    }
    if events.len() < 2 {
        return Ok(fallback);
    }
    match &events[1] {
        XmlItem::StartElement { .. } => {},
        _ => {
            return Ok(fallback);
        },
    }
    let root = chars_of("roblox");
    if !is_named(&events[1], &root) {
        return Err(ResolveError::UnknownRoot);
    }
    let url = chars_of("url");
    let mut k: usize = 2;
    while k < events.len()
        invariant
            2 <= k <= events@.len(),
            url@ == "url"@,
            events@[0] is StartDocument,
            events@[1] is StartElement,
            is_element_named(events@[1], "roblox"@),
            first_element_from(events@, "url"@, 2) == first_element_from(events@, "url"@, k as int),
        decreases events@.len() - k,
    {
        if is_named(&events[k], &url) {
            if k + 1 < events.len() {
                match &events[k + 1] {
                    XmlItem::Characters(text) => {
                        return parse_url_asset_id(text.as_str());
                    },
                    _ => {},
                }
            }
            return Err(ResolveError::ExpectedCharacters);
        }
        k = k + 1;
    }
    Err(ResolveError::MissingUrl)
}

/// The public id of the asset whose content id is `asset_id`, read from its
/// asset-delivery descriptor. A response that is not an XML document leaves
/// `asset_id` unchanged.
pub fn resolve_public_id(descriptor: &Vec<u8>, asset_id: u64) -> (r: Result<u64, ResolveError>)
    ensures
        r == descriptor_outcome(xml_events_of(descriptor@), asset_id),
{
    let events = xml_events(descriptor);
    interpret_descriptor(&events, asset_id)
}

} // verus!
