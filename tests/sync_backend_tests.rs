use std::time::Duration;
use tarmac::manifest::AssetId;
use tarmac::resize::{parse_resize_var, ResizeError};
use tarmac::roblox_api::{RobloxApiError, UploadResponse as ApiUploadResponse};
use tarmac::sync_backend::{
    DebugSyncBackend, LocalSyncBackend, NoneSyncBackend, RetryBackend, RetryStep, RobloxSyncBackend,
    SyncBackend, Error as SyncError, UploadInfo, UploadResponse,
};

fn info(name: &str) -> UploadInfo {
    UploadInfo { name: name.to_string(), contents: vec![1, 2, 3], hash: "hash".to_string() }
}

struct Scripted {
    calls: usize,
    results: Vec<Result<UploadResponse, SyncError>>,
}

impl SyncBackend for Scripted {
    fn upload(&mut self, _data: UploadInfo) -> Result<UploadResponse, SyncError> {
        self.calls += 1;
        if self.results.is_empty() {
            Err(SyncError::NoneBackend)
        } else {
            self.results.remove(0)
        }
    }
}

#[test]
fn retry_makes_all_attempts_then_reports_rate_limited() {
    let inner = Scripted { calls: 0, results: vec![] };
    let mut backend = RetryBackend::new(inner, 2, Duration::from_millis(1));
    let mut waits = 0;
    let (result, made) = backend.upload_with(info("a"), |_d| waits += 1);
    assert!(matches!(result, Err(SyncError::RateLimited)));
    assert_eq!(made, 3);
    assert_eq!(backend.inner.calls, 3);
    assert_eq!(waits, 2);
}

#[test]
fn retry_returns_the_first_success() {
    let inner = Scripted {
        calls: 0,
        results: vec![Err(SyncError::RateLimited), Ok(UploadResponse { id: AssetId::Id(10) })],
    };
    let mut backend = RetryBackend::new(inner, 2, Duration::from_millis(1));
    let (result, made) = backend.upload_with(info("a"), |_d| {});
    assert!(matches!(result, Ok(UploadResponse { id: AssetId::Id(10) })));
    assert_eq!(made, 2);
    assert_eq!(backend.inner.calls, 2);
}

#[test]
fn retry_with_no_retries_attempts_once() {
    let inner = Scripted { calls: 0, results: vec![] };
    let mut backend = RetryBackend::new(inner, 0, Duration::from_millis(1));
    assert_eq!(backend.attempts, 1);
    let (result, made) = backend.upload_with(info("a"), |_d| {});
    assert!(matches!(result, Err(SyncError::RateLimited)));
    assert_eq!(made, 1);
    assert_eq!(backend.inner.calls, 1);
}

#[test]
fn retry_steps_follow_the_attempt_count() {
    let backend = RetryBackend::new(NoneSyncBackend, 2, Duration::from_secs(1));
    assert_eq!(backend.delay, Duration::from_secs(1));
    assert!(matches!(backend.after_attempt(1, Err(SyncError::NoneBackend)), RetryStep::WaitAndRetry));
    assert!(matches!(backend.after_attempt(2, Err(SyncError::NoneBackend)), RetryStep::WaitAndRetry));
    assert!(matches!(backend.after_attempt(3, Err(SyncError::NoneBackend)), RetryStep::Finish(Err(SyncError::RateLimited))));
    assert!(matches!(
        backend.after_attempt(3, Ok(UploadResponse { id: AssetId::Id(1) })),
        RetryStep::Finish(Ok(UploadResponse { id: AssetId::Id(1) }))
    ));
}

#[test]
fn retry_hands_on_success_of_the_last_allowed_attempt() {
    let inner = Scripted {
        calls: 0,
        results: vec![Err(SyncError::NoneBackend), Err(SyncError::RateLimited), Ok(UploadResponse { id: AssetId::Id(3) })],
    };
    let mut backend = RetryBackend::new(inner, 2, Duration::from_millis(1));
    let (result, made) = backend.upload_with(info("a"), |_d| {});
    assert!(matches!(result, Ok(UploadResponse { id: AssetId::Id(3) })));
    assert_eq!(made, 3);
}

#[test]
fn none_backend_refuses() {
    let mut none = NoneSyncBackend;
    assert!(matches!(none.upload(info("a")), Err(SyncError::NoneBackend)));
    assert!(matches!(none.refuse(info("a")), Err(SyncError::NoneBackend)));
}

#[test]
fn debug_backend_counts_up() {
    let mut debug = DebugSyncBackend::new();
    assert!(matches!(debug.upload(info("a")), Ok(UploadResponse { id: AssetId::Id(1) })));
    assert!(matches!(debug.upload(info("b")), Ok(UploadResponse { id: AssetId::Id(2) })));
    let mut full = DebugSyncBackend { last_id: u64::MAX };
    assert!(matches!(full.upload(info("c")), Err(SyncError::RateLimited)));
}

#[test]
fn local_backend_paths() {
    let plain = LocalSyncBackend::new("/studio/content".to_string(), None);
    assert_eq!(plain.get_asset_file_name(&info("icon")), "icon.png");
    assert_eq!(plain.get_asset_path(&info("icon")), ".tarmac/icon.png");
    let scoped = LocalSyncBackend::new("/studio/content/".to_string(), Some("game".to_string()));
    assert_eq!(scoped.get_asset_path(&info("ui/icon")), ".tarmac/game/ui/icon.png");
    let (file, response) = scoped.upload_target(&info("ui/icon"));
    assert_eq!(file, "/studio/content/.tarmac/game/ui/icon.png");
    assert!(matches!(response.id, AssetId::Path(ref p) if p == ".tarmac/game/ui/icon.png"));
}

#[test]
fn remote_backend_maps_rate_limits() {
    let backend = RobloxSyncBackend::new();
    let request = backend.upload_request(info("pic"));
    assert_eq!(request.name, "pic");
    assert_eq!(request.description, "Uploaded by Tarmac.");
    assert_eq!(request.image_data, vec![1, 2, 3]);
    assert!(matches!(
        backend.finish_upload(Ok(ApiUploadResponse { asset_id: 1, backing_asset_id: 2 })),
        Ok(UploadResponse { id: AssetId::Id(2) })
    ));
    assert!(matches!(
        backend.finish_upload(Err(RobloxApiError::ResponseError { status: 429, body: String::new() })),
        Err(SyncError::RateLimited)
    ));
    assert!(matches!(
        backend.finish_upload(Err(RobloxApiError::ResponseError { status: 500, body: String::new() })),
        Err(SyncError::RobloxError(RobloxApiError::ResponseError { status: 500, .. }))
    ));
    assert!(matches!(
        backend.finish_upload(Err(RobloxApiError::MissingAuth)),
        Err(SyncError::RobloxError(RobloxApiError::MissingAuth))
    ));
}

#[test]
fn resize_reads_width_and_height() {
    assert_eq!(parse_resize_var("100x200"), Ok((100, 200)));
    assert_eq!(parse_resize_var("4294967295x0"), Ok((u32::MAX, 0)));
    assert_eq!(parse_resize_var("100"), Err(ResizeError::MissingSeparator));
    assert_eq!(parse_resize_var("ax1"), Err(ResizeError::InvalidWidth));
    assert_eq!(parse_resize_var("4294967296x1"), Err(ResizeError::InvalidWidth));
    assert_eq!(parse_resize_var("1x"), Err(ResizeError::InvalidHeight));
    assert_eq!(parse_resize_var("1x2x3"), Err(ResizeError::InvalidHeight));
    assert_eq!(parse_resize_var("x1"), Err(ResizeError::InvalidWidth));
}
