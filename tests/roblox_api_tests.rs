use tarmac::roblox_api::legacy::{
    finish_upload, interpret_upload_reply, CsrfStep, LegacyClient, RawUploadResponse,
};
use tarmac::roblox_api::open_cloud::{
    cloud_status_error, completed_upload, creator_for, operation_id, poll_until_done, AssetCreator,
    AssetPoll, OpenCloudClient, PollResult, PollStep,
};
use tarmac::roblox_api::{
    asset_delivery_url, get_preferred_client, interpret_descriptor, parse_url_asset_id,
    resolve_public_id, ClientKind, ResolveError, RobloxApiError, RobloxCredentials, UploadResponse,
    XmlItem,
};

fn creds(token: Option<&str>, api_key: Option<&str>, user: Option<u64>, group: Option<u64>) -> RobloxCredentials {
    RobloxCredentials {
        token: token.map(|t| t.to_string()),
        api_key: api_key.map(|k| k.to_string()),
        user_id: user,
        group_id: group,
    }
}

#[test]
fn preferred_client_needs_some_credential() {
    assert!(matches!(get_preferred_client(&creds(None, None, None, None)), Err(RobloxApiError::MissingAuth)));
}

#[test]
fn preferred_client_prefers_the_api_key() {
    assert!(matches!(get_preferred_client(&creds(Some("t"), Some("k"), Some(1), None)), Ok(ClientKind::OpenCloud)));
    assert!(matches!(get_preferred_client(&creds(None, Some("k"), Some(1), None)), Ok(ClientKind::OpenCloud)));
    assert!(matches!(get_preferred_client(&creds(Some("t"), None, None, None)), Ok(ClientKind::Legacy)));
}

#[test]
fn descriptor_with_embedded_id_resolves_to_it() {
    let xml = b"<roblox><url>http://www.roblox.com/asset/?id=12345</url></roblox>".to_vec();
    assert_eq!(resolve_public_id(&xml, 777), Ok(12345));
}

#[test]
fn descriptor_with_declaration_resolves() {
    let xml = b"<?xml version=\"1.0\"?><roblox xmlns:xmime=\"http://www.w3.org/2005/05/xmlmime\" version=\"4\"><url>http://www.roblox.com/asset/?id=98</url></roblox>".to_vec();
    assert_eq!(resolve_public_id(&xml, 1), Ok(98));
}

#[test]
fn non_xml_response_falls_back_to_the_input_id() {
    let png = vec![0x89u8, b'P', b'N', b'G', 0x0d, 0x0a, 0x1a, 0x0a, 0, 0];
    assert_eq!(resolve_public_id(&png, 555), Ok(555));
    assert_eq!(resolve_public_id(&b"plain text".to_vec(), 556), Ok(556));
    assert_eq!(resolve_public_id(&Vec::new(), 557), Ok(557));
}

#[test]
fn descriptor_with_another_root_is_an_error() {
    let xml = b"<other><url>http://www.roblox.com/asset/?id=1</url></other>".to_vec();
    assert_eq!(resolve_public_id(&xml, 5), Err(ResolveError::UnknownRoot));
}

#[test]
fn descriptor_without_url_is_an_error() {
    let xml = b"<roblox><name>x</name></roblox>".to_vec();
    assert_eq!(resolve_public_id(&xml, 5), Err(ResolveError::MissingUrl));
}

#[test]
fn descriptor_with_empty_url_is_an_error() {
    let xml = b"<roblox><url></url></roblox>".to_vec();
    assert_eq!(resolve_public_id(&xml, 5), Err(ResolveError::ExpectedCharacters));
}

#[test]
fn descriptor_url_without_marker_is_an_error() {
    let xml = b"<roblox><url>https://example.com/1</url></roblox>".to_vec();
    assert_eq!(resolve_public_id(&xml, 5), Err(ResolveError::MissingAssetId));
}

#[test]
fn descriptor_url_with_bad_number_is_an_error() {
    let xml = b"<roblox><url>http://www.roblox.com/asset/?id=12a</url></roblox>".to_vec();
    assert_eq!(resolve_public_id(&xml, 5), Err(ResolveError::MalformedAssetId));
}

#[test]
fn url_asset_id_reads_up_to_the_next_marker() {
    assert_eq!(parse_url_asset_id("x http://www.roblox.com/asset/?id=42"), Ok(42));
    assert_eq!(
        parse_url_asset_id("http://www.roblox.com/asset/?id=7http://www.roblox.com/asset/?id=8"),
        Ok(7)
    );
    assert_eq!(parse_url_asset_id("http://www.roblox.com/asset/?id=+9"), Ok(9));
    assert_eq!(
        parse_url_asset_id("http://www.roblox.com/asset/?id=18446744073709551616"),
        Err(ResolveError::MalformedAssetId)
    );
    assert_eq!(
        parse_url_asset_id("http://www.roblox.com/asset/?id=18446744073709551615"),
        Ok(u64::MAX)
    );
}

#[test]
fn interpret_descriptor_on_given_events() {
    let events = vec![
        XmlItem::StartDocument,
        XmlItem::StartElement { local_name: "roblox".to_string(), namespace: None, prefix: None },
        XmlItem::Other,
        XmlItem::StartElement { local_name: "url".to_string(), namespace: None, prefix: None },
        XmlItem::Characters("http://www.roblox.com/asset/?id=31".to_string()),
        XmlItem::EndDocument,
    ];
    assert_eq!(interpret_descriptor(&events, 1), Ok(31));
    assert_eq!(interpret_descriptor(&vec![XmlItem::Malformed], 4), Ok(4));
    assert_eq!(interpret_descriptor(&vec![XmlItem::StartDocument, XmlItem::Other], 4), Ok(4));
    let prefixed = vec![
        XmlItem::StartDocument,
        XmlItem::StartElement { local_name: "roblox".to_string(), namespace: None, prefix: Some("p".to_string()) },
    ];
    assert_eq!(interpret_descriptor(&prefixed, 4), Err(ResolveError::UnknownRoot));
}

#[test]
fn delivery_url_names_the_id() {
    assert_eq!(asset_delivery_url(123), "https://assetdelivery.roblox.com/v1/asset/?id=123");
    assert_eq!(asset_delivery_url(0), "https://assetdelivery.roblox.com/v1/asset/?id=0");
}

#[test]
fn csrf_retry_happens_once_with_the_fresh_token() {
    let mut client = LegacyClient::new(creds(Some("secret"), None, None, None));
    let first = client.request_headers();
    assert_eq!(first.len(), 1);
    assert_eq!(first[0].name, "Cookie");
    assert_eq!(first[0].value, b".ROBLOSECURITY=secret".to_vec());
    assert_eq!(client.after_response(false, 403, Some(b"tok1".to_vec())), CsrfStep::Retry);
    let second = client.request_headers();
    assert_eq!(second.len(), 2);
    assert_eq!(second[1].name, "X-CSRF-Token");
    assert_eq!(second[1].value, b"tok1".to_vec());
    assert_eq!(client.after_response(true, 403, Some(b"tok2".to_vec())), CsrfStep::Return);
    assert_eq!(client.csrf_token, Some(b"tok1".to_vec()));
}

#[test]
fn forbidden_without_token_is_returned() {
    let mut client = LegacyClient::new(creds(None, None, None, None));
    assert_eq!(client.after_response(false, 403, None), CsrfStep::Return);
    assert_eq!(client.csrf_token, None);
    assert!(client.request_headers().is_empty());
    assert_eq!(client.after_response(false, 200, Some(b"t".to_vec())), CsrfStep::Return);
    assert_eq!(client.csrf_token, None);
}

#[test]
fn upload_url_carries_the_group() {
    let plain = LegacyClient::new(creds(Some("t"), None, None, None));
    assert_eq!(plain.upload_url(), "https://data.roblox.com/data/upload/json?assetTypeId=13");
    let group = LegacyClient::new(creds(Some("t"), None, None, Some(77)));
    assert_eq!(group.upload_url(), "https://data.roblox.com/data/upload/json?assetTypeId=13&groupId=77");
}

fn raw(success: bool, message: Option<&str>, asset_id: Option<u64>) -> RawUploadResponse {
    RawUploadResponse { success, message: message.map(|m| m.to_string()), asset_id, backing_asset_id: None }
}

#[test]
fn upload_reply_success_names_the_content_id() {
    assert!(matches!(interpret_upload_reply(200, "{}".to_string(), Ok(raw(true, None, Some(66)))), Ok(66)));
}

#[test]
fn upload_reply_errors() {
    match interpret_upload_reply(500, "oops".to_string(), Ok(raw(true, None, Some(1)))) {
        Err(RobloxApiError::ResponseError { status, body }) => {
            assert_eq!(status, 500);
            assert_eq!(body, "oops");
        }
        _ => panic!("expected a response error"),
    }
    match interpret_upload_reply(429, String::new(), Err("x".to_string())) {
        Err(RobloxApiError::ResponseError { status, .. }) => assert_eq!(status, 429),
        _ => panic!("expected a response error"),
    }
    match interpret_upload_reply(200, "garbage".to_string(), Err("bad json".to_string())) {
        Err(RobloxApiError::BadResponseJson { body, message }) => {
            assert_eq!(body, "garbage");
            assert_eq!(message, "bad json");
        }
        _ => panic!("expected bad json"),
    }
    match interpret_upload_reply(200, "{}".to_string(), Ok(raw(false, Some("denied"), None))) {
        Err(RobloxApiError::ApiError { message }) => assert_eq!(message, "denied"),
        _ => panic!("expected an api error"),
    }
    match interpret_upload_reply(200, "{}".to_string(), Ok(raw(true, None, None))) {
        Err(RobloxApiError::BadResponseJson { message, .. }) => assert_eq!(message, "the reply has no asset id"),
        _ => panic!("expected bad json"),
    }
    match interpret_upload_reply(200, "{}".to_string(), Ok(raw(false, None, None))) {
        Err(RobloxApiError::BadResponseJson { message, .. }) => assert_eq!(message, "the reply has no message"),
        _ => panic!("expected bad json"),
    }
}

#[test]
fn finished_upload_pairs_public_and_content_id() {
    assert!(matches!(finish_upload(10, Ok(20)), Ok(UploadResponse { asset_id: 20, backing_asset_id: 10 })));
    assert!(matches!(
        finish_upload(10, Err(ResolveError::MissingUrl)),
        Err(RobloxApiError::Descriptor(ResolveError::MissingUrl))
    ));
}

#[test]
fn creator_is_group_or_user() {
    assert_eq!(creator_for(Some(3), None).ok(), Some(AssetCreator::Group(3)));
    assert_eq!(creator_for(None, Some(4)).ok(), Some(AssetCreator::User(4)));
    assert!(matches!(creator_for(Some(3), Some(4)), Err(RobloxApiError::AmbiguousCreatorType)));
}

#[test]
fn open_cloud_client_needs_a_key() {
    assert!(matches!(OpenCloudClient::new(creds(None, None, Some(1), None)), Err(RobloxApiError::MissingAuth)));
    assert!(matches!(OpenCloudClient::new(creds(None, Some("k"), Some(1), Some(2))), Err(RobloxApiError::AmbiguousCreatorType)));
    let client = OpenCloudClient::new(creds(None, Some("k"), None, Some(2))).ok().unwrap();
    assert_eq!(client.creator, AssetCreator::Group(2));
}

#[test]
fn operation_path_must_carry_the_prefix() {
    assert_eq!(operation_id(Some("operations/abc-1".to_string())).ok(), Some("abc-1".to_string()));
    assert_eq!(operation_id(Some("operations/".to_string())).ok(), Some(String::new()));
    assert!(matches!(operation_id(None), Err(RobloxApiError::MissingOperationPath)));
    assert!(matches!(operation_id(Some("ops/abc".to_string())), Err(RobloxApiError::MalformedOperationPath)));
}

#[test]
fn cloud_status_falls_back_to_ok() {
    assert!(matches!(cloud_status_error(429, "slow".to_string()), RobloxApiError::ResponseError { status: 429, .. }));
    assert!(matches!(cloud_status_error(42, String::new()), RobloxApiError::ResponseError { status: 200, .. }));
    assert!(matches!(cloud_status_error(1000, String::new()), RobloxApiError::ResponseError { status: 200, .. }));
}

#[test]
fn completed_upload_uses_one_id_for_both() {
    let r = completed_upload(5);
    assert_eq!((r.asset_id, r.backing_asset_id), (5, 5));
}

fn run_polls(results: Vec<PollResult>) -> (Vec<u64>, Option<PollStep>, usize) {
    let mut poll = AssetPoll::new();
    let mut waits = Vec::new();
    let mut polls = 0;
    for result in results {
        polls += 1;
        match poll.on_poll(result) {
            PollStep::Wait { millis } => waits.push(millis),
            other => return (waits, Some(other), polls),
        }
    }
    (waits, None, polls)
}

#[test]
fn pending_polls_back_off_quadratically() {
    let mut results = vec![PollResult::Pending, PollResult::Pending, PollResult::Pending];
    results.push(PollResult::Completed("9001".to_string()));
    let (waits, end, polls) = run_polls(results);
    assert_eq!(waits, vec![50, 200, 450]);
    assert!(matches!(end, Some(PollStep::Done(9001))));
    assert_eq!(polls, 4);
}

#[test]
fn first_poll_can_complete() {
    let (waits, end, polls) = run_polls(vec![PollResult::Completed("12".to_string())]);
    assert!(waits.is_empty());
    assert!(matches!(end, Some(PollStep::Done(12))));
    assert_eq!(polls, 1);
}

#[test]
fn five_pending_polls_still_succeed() {
    let mut results: Vec<PollResult> = (0..5).map(|_| PollResult::Pending).collect();
    results.push(PollResult::Completed("3".to_string()));
    let (waits, end, polls) = run_polls(results);
    assert_eq!(waits, vec![50, 200, 450, 800, 1250]);
    assert!(matches!(end, Some(PollStep::Done(3))));
    assert_eq!(polls, 6);
}

#[test]
fn six_pending_polls_fail() {
    let results: Vec<PollResult> = (0..7).map(|_| PollResult::Pending).collect();
    let (waits, end, polls) = run_polls(results);
    assert_eq!(waits.len(), 5);
    assert!(matches!(end, Some(PollStep::Failed(RobloxApiError::AssetGetFailed))));
    assert_eq!(polls, 6);
}

#[test]
fn unparsable_completed_id_fails() {
    let (_, end, _) = run_polls(vec![PollResult::Completed("12x".to_string())]);
    assert!(matches!(end, Some(PollStep::Failed(RobloxApiError::AssetGetFailed))));
}

fn drive(mut script: Vec<PollResult>) -> (PollStep, usize, Vec<u64>, usize) {
    let mut calls = 0;
    let mut waits = Vec::new();
    let (step, made) = poll_until_done(
        || {
            calls += 1;
            if script.is_empty() { PollResult::Pending } else { script.remove(0) }
        },
        |millis| waits.push(millis),
    );
    (step, made, waits, calls)
}

#[test]
fn poll_driver_finishes_after_pending_polls() {
    let (step, made, waits, calls) = drive(vec![
        PollResult::Pending,
        PollResult::Pending,
        PollResult::Pending,
        PollResult::Pending,
        PollResult::Completed("77".to_string()),
    ]);
    assert!(matches!(step, PollStep::Done(77)));
    assert_eq!((made, calls), (5, 5));
    assert_eq!(waits, vec![50, 200, 450, 800]);
}

#[test]
fn poll_driver_gives_up_on_the_sixth_pending_poll() {
    let (step, made, waits, calls) = drive(vec![]);
    assert!(matches!(step, PollStep::Failed(RobloxApiError::AssetGetFailed)));
    assert_eq!((made, calls), (6, 6));
    assert_eq!(waits, vec![50, 200, 450, 800, 1250]);
}
