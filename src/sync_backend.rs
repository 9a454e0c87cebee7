//! Upload backends: the destinations an image can be uploaded to, and the
//! decorator that retries a failing upload with a constant wait.
use vstd::prelude::*;
use vstd::string::*;
use crate::manifest::AssetId;
use crate::roblox_api::{ImageUploadData, RobloxApiError, UploadResponse as ApiUploadResponse};
use crate::text::{chars_of, join_path, path_join, string_from_chars};
use std::time::Duration;

verus! {

/// An image to upload: its name, its bytes and the digest of its bytes.
#[derive(Clone, Debug)]
pub struct UploadInfo {
    pub name: String,
    pub contents: Vec<u8>,
    pub hash: String,
}

/// Where an upload ended up.
#[derive(Clone, Debug)]
pub struct UploadResponse {
    pub id: AssetId,
}

/// Why an upload failed.
#[derive(Clone, Debug)]
pub enum Error {
    /// Uploads are disabled.
    NoneBackend,
    /// The service limits the rate of uploads, or every attempt failed.
    RateLimited,
    /// The local editor installation could not be found.
    StudioInstall { message: String },
    /// A file could not be written.
    Io { message: String },
    /// The remote client failed.
    RobloxError(RobloxApiError),
}

/// A destination that uploads can be sent to.
pub trait SyncBackend {
    fn upload(&mut self, data: UploadInfo) -> Result<UploadResponse, Error>;
}

/// Uploads to the remote service through a client of either scheme.
#[derive(Clone, Copy, Debug)]
pub struct RobloxSyncBackend;

/// Writes uploads into a folder of the local editor's content folder.
#[derive(Clone, Debug)]
pub struct LocalSyncBackend {
    pub content_path: String,
    pub scope: Option<String>,
}

/// Refuses every upload.
#[derive(Clone, Copy, Debug)]
pub struct NoneSyncBackend;

/// Hands out ascending ids without storing anything.
#[derive(Clone, Copy, Debug)]
pub struct DebugSyncBackend {
    pub last_id: u64,
}

/// Retries the uploads of `inner` up to `attempts` times in all, waiting
/// `delay` between two attempts.
#[derive(Debug)]
pub struct RetryBackend<InnerSyncBackend> {
    pub inner: InnerSyncBackend,
    pub delay: Duration,
    pub attempts: usize,
}

/// What to do after an attempt.
#[derive(Debug)]
pub enum RetryStep {
    /// Wait the delay, then attempt again.
    WaitAndRetry,
    /// Hand this result to the caller.
    Finish(Result<UploadResponse, Error>),
}

/// The description that remote uploads carry.
pub open spec fn upload_description() -> Seq<char> {
    "Uploaded by Tarmac."@
}

/// The remote result of an upload as a backend result: the content id on
/// success, `RateLimited` for an HTTP 429, any other failure passed on.
pub open spec fn remote_outcome(result: Result<ApiUploadResponse, RobloxApiError>) -> Result<UploadResponse, Error> {
    match result {
        Ok(response) => Ok(UploadResponse { id: AssetId::Id(response.backing_asset_id) }),
        Err(e) => match e {
            RobloxApiError::ResponseError { status, .. } if status == 429 => Err(Error::RateLimited),
            _ => Err(Error::RobloxError(e)),
        },
    }
}

/// The file name a local upload gets.
pub open spec fn asset_file_name_spec(name: Seq<char>) -> Seq<char> {
    name + ".png"@
}

/// The path of a local upload, relative to the content folder.
pub open spec fn asset_path_spec(scope: Option<Seq<char>>, name: Seq<char>) -> Seq<char> {
    let base = ".tarmac"@;
    let dir = match scope {
        Some(s) => path_join(base, s),
        None => base,
    };
    path_join(dir, asset_file_name_spec(name))
}

/// The step after attempt number `made` (from 1) out of `attempts` ended with
/// `outcome`: a success is handed on, a failure is retried while attempts
/// remain and becomes `RateLimited` after the last one.
pub open spec fn retry_transition(attempts: nat, made: nat, outcome: Result<UploadResponse, Error>) -> RetryStep {
    match outcome {
        Ok(_) => RetryStep::Finish(outcome),
        Err(_) => if made < attempts {
            RetryStep::WaitAndRetry
        } else {
            RetryStep::Finish(Err(Error::RateLimited))
        },
    }
}

/// The retry decorator with `attempts` attempts, after `made` attempts, handed
/// the attempts' outcomes one by one: how many attempts were made in all, and
/// the result, if it finished within `outcomes`.
pub open spec fn retry_run(attempts: nat, made: nat, outcomes: Seq<Result<UploadResponse, Error>>) -> (nat, Option<Result<UploadResponse, Error>>)
    decreases outcomes.len(),
{
    if outcomes.len() == 0 {
        (made, None)
    } else {
        match retry_transition(attempts, made + 1, outcomes[0]) {
            RetryStep::WaitAndRetry => retry_run(attempts, made + 1, outcomes.drop_first()),
            RetryStep::Finish(r) => (made + 1, Some(r)),
        }
    }
}

proof fn lemma_retry_all_fail_from(attempts: nat, made: nat, outcomes: Seq<Result<UploadResponse, Error>>)
    requires
        made < attempts,
        outcomes.len() >= attempts - made,
        forall|i: int| 0 <= i < attempts - made ==> outcomes[i] is Err,
    ensures
        retry_run(attempts, made, outcomes) == (attempts, Some(Err::<UploadResponse, Error>(Error::RateLimited))),
    decreases attempts - made,
{
    if made + 1 < attempts {
        let rest = outcomes.drop_first();
        assert forall|i: int| 0 <= i < attempts - (made + 1) implies rest[i] is Err by {
            assert(rest[i] == outcomes[i + 1]);
        }
        lemma_retry_all_fail_from(attempts, made + 1, rest);
    }
}

/// When every attempt fails, the decorator makes exactly `max_retries + 1`
/// attempts and reports `RateLimited`, whatever the failures were.
pub proof fn lemma_retry_all_fail(max_retries: nat, outcomes: Seq<Result<UploadResponse, Error>>)
    requires
        outcomes.len() >= max_retries + 1,
        forall|i: int| 0 <= i < max_retries + 1 ==> outcomes[i] is Err,
    ensures
        retry_run(max_retries + 1, 0, outcomes) == (max_retries + 1, Some(Err::<UploadResponse, Error>(Error::RateLimited))),
{
    lemma_retry_all_fail_from(max_retries + 1, 0, outcomes);
}

proof fn lemma_retry_first_success_from(attempts: nat, made: nat, outcomes: Seq<Result<UploadResponse, Error>>, s: nat)
    requires
        made + s < attempts,
        s < outcomes.len(),
        outcomes[s as int] is Ok,
        forall|i: int| 0 <= i < s ==> outcomes[i] is Err,
    ensures
        retry_run(attempts, made, outcomes) == (made + s + 1, Some(outcomes[s as int])),
    decreases s,
{
    if s > 0 {
        let rest = outcomes.drop_first();
        assert forall|i: int| 0 <= i < s - 1 implies rest[i] is Err by {
            assert(rest[i] == outcomes[i + 1]);
        }
        assert(rest[s - 1] == outcomes[s as int]);
        lemma_retry_first_success_from(attempts, made + 1, rest, (s - 1) as nat);
    }
}

/// When attempt number `s + 1` is the first that succeeds, and it is within
/// the `max_retries + 1` allowed, exactly `s + 1` attempts are made and that
/// success is returned.
pub proof fn lemma_retry_first_success(max_retries: nat, outcomes: Seq<Result<UploadResponse, Error>>, s: nat)
    requires
        s <= max_retries,
        s < outcomes.len(),
        outcomes[s as int] is Ok,
        forall|i: int| 0 <= i < s ==> outcomes[i] is Err,
    ensures
        retry_run(max_retries + 1, 0, outcomes) == (s + 1, Some(outcomes[s as int])),
{
    lemma_retry_first_success_from(max_retries + 1, 0, outcomes, s);
}

impl RobloxSyncBackend {
    /// A backend for the remote service.
    pub fn new() -> (r: RobloxSyncBackend) {
        RobloxSyncBackend
    }

    /// The upload that the remote client is to make for `data`.
    pub fn upload_request(&self, data: UploadInfo) -> (r: ImageUploadData)
        ensures
            r.image_data@ == data.contents@,
            r.name@ == data.name@,
            r.description@ == upload_description(),
    {
        ImageUploadData {
            image_data: data.contents,
            name: data.name,
            description: String::from_str("Uploaded by Tarmac."),
        }
    }

    /// The backend result for what the remote client returned.
    pub fn finish_upload(&self, result: Result<ApiUploadResponse, RobloxApiError>) -> (r: Result<UploadResponse, Error>)
        ensures
            r == remote_outcome(result),
    {
        match result {
            Ok(response) => Ok(UploadResponse { id: AssetId::Id(response.backing_asset_id) }),
            Err(e) => {
                let limited = match &e {
                    RobloxApiError::ResponseError { status, .. } => *status == 429,
                    _ => false,
                };
                if limited {
                    Err(Error::RateLimited)
                } else {
                    Err(Error::RobloxError(e))
                }
            },
        }
    }
}

impl LocalSyncBackend {
    /// A backend writing into `content_path`, under the folder `scope` if given.
    pub fn new(content_path: String, scope: Option<String>) -> (r: LocalSyncBackend)
        ensures
            r.content_path == content_path,
            r.scope == scope,
    {
        LocalSyncBackend { content_path, scope }
    }

    /// The file name of the upload of `data`.
    pub fn get_asset_file_name(&self, data: &UploadInfo) -> (r: String)
        ensures
            r@ == asset_file_name_spec(data.name@),
    {
        String::from_str(data.name.as_str()).concat(".png")
    }

    /// The path of the upload of `data`, relative to the content folder.
    pub fn get_asset_path(&self, data: &UploadInfo) -> (r: String)
        ensures
            r@ == asset_path_spec(
                match self.scope {
                    Some(s) => Some(s@),
                    None => None,
                },
                data.name@,
            ),
    {
        let base = chars_of(".tarmac");
        let dir = match &self.scope {
            Some(scope) => join_path(&base, &chars_of(scope.as_str())),
            None => base,
        };
        let file = self.get_asset_file_name(data);
        string_from_chars(&join_path(&dir, &chars_of(file.as_str())))
    }

    /// Where the upload of `data` is written, and what the upload returns.
    pub fn upload_target(&self, data: &UploadInfo) -> (r: (String, UploadResponse))
        ensures
            r.1.id matches AssetId::Path(p) && p@ == asset_path_spec(
                match self.scope {
                    Some(s) => Some(s@),
                    None => None,
                },
                data.name@,
            ),
            r.0@ == path_join(self.content_path@, asset_path_spec(
                match self.scope {
                    Some(s) => Some(s@),
                    None => None,
                },
                data.name@,
            )),
    {
        let relative = self.get_asset_path(data);
        let full = join_path(&chars_of(self.content_path.as_str()), &chars_of(relative.as_str()));
        (string_from_chars(&full), UploadResponse { id: AssetId::Path(relative) })
    }
}

impl SyncBackend for NoneSyncBackend {
    fn upload(&mut self, data: UploadInfo) -> (r: Result<UploadResponse, Error>)
        ensures
            r matches Err(Error::NoneBackend),
    {
        Err(Error::NoneBackend)
    }
}

impl NoneSyncBackend {
    /// Every upload fails with `NoneBackend`.
    pub fn refuse(&self, data: UploadInfo) -> (r: Result<UploadResponse, Error>)
        ensures
            r matches Err(Error::NoneBackend),
    {
        Err(Error::NoneBackend)
    }
}

impl DebugSyncBackend {
    /// A backend that has handed out no id.
    pub fn new() -> (r: DebugSyncBackend)
        ensures
            r.last_id == 0,
    {
        DebugSyncBackend { last_id: 0 }
    }

    /// Hands out the id after the last one.
    pub fn next_upload(&mut self, data: UploadInfo) -> (r: Result<UploadResponse, Error>)
        ensures
            old(self).last_id < u64::MAX ==> (final(self).last_id == old(self).last_id + 1
                && (r matches Ok(resp) && resp.id == AssetId::Id(final(self).last_id))),
            old(self).last_id == u64::MAX ==> (*final(self) == *old(self) && (r matches Err(
                Error::RateLimited,
            ))),
    {
        if self.last_id == u64::MAX {
            return Err(Error::RateLimited);
        }
        self.last_id = self.last_id + 1;
        Ok(UploadResponse { id: AssetId::Id(self.last_id) })
    }
}

impl SyncBackend for DebugSyncBackend {
    fn upload(&mut self, data: UploadInfo) -> (r: Result<UploadResponse, Error>)
        ensures
            old(self).last_id < u64::MAX ==> (final(self).last_id == old(self).last_id + 1
                && (r matches Ok(resp) && resp.id == AssetId::Id(final(self).last_id))),
            old(self).last_id == u64::MAX ==> (*final(self) == *old(self) && (r matches Err(
                Error::RateLimited,
            ))),
    {
        self.next_upload(data)
    }
}

impl<InnerSyncBackend> RetryBackend<InnerSyncBackend> {
    /// A decorator of `inner` that tries again up to `max_retries` times, so
    /// with 0 it acts as `inner` alone, waiting `delay` between attempts.
    pub fn new(inner: InnerSyncBackend, max_retries: usize, delay: Duration) -> (r: Self)
        requires
            max_retries < usize::MAX,
        ensures
            r.inner == inner,
            r.delay == delay,
            r.attempts == max_retries + 1,
    {
        RetryBackend { inner, delay, attempts: max_retries + 1 }
    }

    /// The step after attempt number `made` (from 1) ended with `outcome`.
    pub fn after_attempt(&self, made: usize, outcome: Result<UploadResponse, Error>) -> (r: RetryStep)
        requires
            1 <= made <= self.attempts,
        ensures
            r == retry_transition(self.attempts as nat, made as nat, outcome),
    {
        match outcome {
            Ok(_) => RetryStep::Finish(outcome),
            Err(_) => if made < self.attempts {
                RetryStep::WaitAndRetry
            } else {
                RetryStep::Finish(Err(Error::RateLimited))
            },
        }
    }
}

proof fn lemma_retry_run_push(attempts: nat, made: nat, s: Seq<Result<UploadResponse, Error>>, o: Result<UploadResponse, Error>)
    requires
        retry_run(attempts, made, s) == (made + s.len(), None::<Result<UploadResponse, Error>>),
    ensures
        retry_run(attempts, made, s.push(o)) == match retry_transition(attempts, made + s.len() + 1, o) {
            RetryStep::WaitAndRetry => (made + s.len() + 1, None::<Result<UploadResponse, Error>>),
            RetryStep::Finish(r) => (made + s.len() + 1, Some(r)),
        },
    decreases s.len(),
{
    if s.len() == 0 {
        assert(s.push(o).drop_first() =~= Seq::<Result<UploadResponse, Error>>::empty());
        assert(s.push(o)[0] == o);
        assert(retry_run(attempts, made + 1, s.push(o).drop_first()) == (made + 1, None::<Result<UploadResponse, Error>>));
    } else {
        assert(s.push(o)[0] == s[0]);
        assert(s.push(o).drop_first() =~= s.drop_first().push(o));
        assert(retry_transition(attempts, made + 1, s[0]) is WaitAndRetry);
        assert(retry_run(attempts, made + 1, s.drop_first()) == (made + 1 + s.drop_first().len(), None::<Result<UploadResponse, Error>>));
        lemma_retry_run_push(attempts, made + 1, s.drop_first(), o);
        assert(retry_run(attempts, made, s.push(o)) == retry_run(attempts, made + 1, s.drop_first().push(o)));
    }
}

impl<InnerSyncBackend: SyncBackend> RetryBackend<InnerSyncBackend> {
    /// Uploads `data` through the inner backend, calling `wait` with the delay
    /// between two attempts. Returns the result and the number of attempts
    /// made: for the outcomes that the inner backend returned, in order, the
    /// retry steps end exactly after that many attempts with that result, so
    /// the first success is handed on and `RateLimited` comes only once every
    /// allowed attempt failed.
    pub fn upload_with<F: FnMut(Duration)>(&mut self, data: UploadInfo, wait: F) -> (r: (Result<UploadResponse, Error>, usize))
        requires
            old(self).attempts >= 1,
            forall|d: Duration, w: F| #[trigger] w.requires((d,)),
        ensures
            1 <= r.1 <= old(self).attempts,
            exists|outcomes: Seq<Result<UploadResponse, Error>>|
                outcomes.len() == r.1 && #[trigger] retry_run(old(self).attempts as nat, 0, outcomes) == (
                    r.1 as nat,
                    Some(r.0),
                ),
            r.0 matches Err(e) ==> (e matches Error::RateLimited && r.1 == old(self).attempts),
            final(self).attempts == old(self).attempts,
            final(self).delay == old(self).delay,
    {
        let mut wait = wait;
        let mut made: usize = 0;
        let ghost mut outcomes: Seq<Result<UploadResponse, Error>> = Seq::empty();
        loop
            invariant
                made < self.attempts,
                self.attempts == old(self).attempts,
                self.delay == old(self).delay,
                outcomes.len() == made,
                retry_run(self.attempts as nat, 0, outcomes) == (made as nat, None::<Result<UploadResponse, Error>>),
                forall|d: Duration, w: F| #[trigger] w.requires((d,)),
            decreases self.attempts - made,
        {
            if made > 0 {
                wait(self.delay);
            }
            let outcome = self.inner.upload(data.clone());
            proof {
                lemma_retry_run_push(self.attempts as nat, 0, outcomes, outcome);
                outcomes = outcomes.push(outcome);
            }
            made = made + 1;
            match self.after_attempt(made, outcome) {
                RetryStep::WaitAndRetry => {},
                RetryStep::Finish(result) => {
                    assert(retry_run(self.attempts as nat, 0, outcomes) == (made as nat, Some(result)));
                    return (result, made);
                },
            }
        }
    }
}

} // verus!
