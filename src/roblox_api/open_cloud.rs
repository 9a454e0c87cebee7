//! The key scheme: uploads are submitted as asynchronous operations and the
//! operation is polled, with a growing wait, until it reports the new id.
use vstd::prelude::*;
use crate::roblox_api::{RobloxApiError, RobloxCredentials, UploadResponse};
use crate::text::{chars_of, matches_at, parse_unsigned, parse_unsigned_spec};

verus! {

/// How many times a pending operation is polled again before giving up.
pub const MAX_RETRIES: u32 = 5;

/// The wait before the first repeated poll; the k-th waits k² times as long.
pub const INITIAL_DELAY_MILLIS: u64 = 50;

/// The owner that an uploaded asset is created for.
#[derive(Clone, Copy, Debug, PartialEq, Eq, Structural)]
pub enum AssetCreator {
    User(u64),
    Group(u64),
}

/// What one poll of the operation reported.
#[derive(Clone, Debug)]
pub enum PollResult {
    /// The operation has not finished.
    Pending,
    /// The operation finished; the text of the new asset's id.
    Completed(String),
}

/// What to do after a poll.
#[derive(Clone, Debug)]
pub enum PollStep {
    /// Wait this long, then poll again.
    Wait { millis: u64 },
    /// The upload finished with this id.
    Done(u64),
    /// The upload failed.
    Failed(RobloxApiError),
}

/// The state of a poll loop: how many repeated polls were already made.
#[derive(Clone, Copy, Debug)]
pub struct AssetPoll {
    pub retries: u32,
}

/// The key-scheme client: the credentials and the creator its uploads are for.
#[derive(Clone)]
pub struct OpenCloudClient {
    pub credentials: RobloxCredentials,
    pub creator: AssetCreator,
}

/// The creator that a group id or a user id names; both together are ambiguous.
pub open spec fn creator_spec(group_id: Option<u64>, user_id: Option<u64>) -> Result<AssetCreator, RobloxApiError> {
    match (group_id, user_id) {
        (Some(g), None) => Ok(AssetCreator::Group(g)),
        (None, Some(u)) => Ok(AssetCreator::User(u)),
        _ => Err(RobloxApiError::AmbiguousCreatorType),
    }
}

/// The wait before repeated poll number `k` (from 1).
pub open spec fn backoff_millis(k: nat) -> nat {
    INITIAL_DELAY_MILLIS as nat * (k * k)
}

/// The next state and step of a poll loop after a poll that reported `result`.
pub open spec fn poll_transition(retries: nat, result: PollResult) -> (nat, PollStep) {
    match result {
        PollResult::Completed(text) => (
            retries,
            match parse_unsigned_spec(text@, u64::MAX as nat) {
                Some(v) => PollStep::Done(v as u64),
                None => PollStep::Failed(RobloxApiError::AssetGetFailed),
            },
        ),
        PollResult::Pending => if retries >= MAX_RETRIES {
            (retries, PollStep::Failed(RobloxApiError::AssetGetFailed))
        } else {
            (retries + 1, PollStep::Wait { millis: backoff_millis(retries + 1) as u64 })
        },
    }
}

/// A poll loop that starts after `retries` repeated polls and is handed
/// `results` one by one: the waits it asks for, and the step it ends with, if
/// it ends within `results`.
pub open spec fn poll_run(retries: nat, results: Seq<PollResult>) -> (Seq<u64>, Option<PollStep>)
    decreases results.len(),
{
    if results.len() == 0 {
        (Seq::empty(), None)
    } else {
        let (next, step) = poll_transition(retries, results[0]);
        match step {
            PollStep::Wait { millis } => {
                let (waits, end) = poll_run(next, results.drop_first());
                (seq![millis] + waits, end)
            },
            _ => (Seq::empty(), Some(step)),
        }
    }
}

/// The id of an asynchronous operation from the path the service returned,
/// which must start with `operations/`.
pub open spec fn operation_id_spec(path: Option<Seq<char>>) -> Result<Seq<char>, RobloxApiError> {
    match path {
        None => Err(RobloxApiError::MissingOperationPath),
        Some(p) => if p.len() >= 11 && p.subrange(0, 11) == "operations/"@ {
            Ok(p.subrange(11, p.len() as int))
        } else {
            Err(RobloxApiError::MalformedOperationPath)
        },
    }
}

/// The status an HTTP status number stands for, as `http`'s `from_u16` with
/// its default reads it: a number outside 100 to 999 becomes 200.
pub open spec fn status_or_default(code: u16) -> u16 {
    if 100 <= code && code < 1000 {
        code
    } else {
        200
    }
}

proof fn lemma_poll_pending_then_done_from(r: nat, results: Seq<PollResult>, n: nat, v: nat)
    requires
        r + n <= MAX_RETRIES,
        results.len() == n + 1,
        forall|i: int| 0 <= i < n ==> results[i] is Pending,
        results[n as int] matches PollResult::Completed(t) && parse_unsigned_spec(t@, u64::MAX as nat)
            == Some(v),
    ensures
        poll_run(r, results) == (
            Seq::new(n, |k: int| backoff_millis((r + k + 1) as nat) as u64),
            Some(PollStep::Done(v as u64)),
        ),
    decreases n,
{
    if n > 0 {
        let rest = results.drop_first();
        assert forall|i: int| 0 <= i < n - 1 implies rest[i] is Pending by {
            assert(rest[i] == results[i + 1]);
        }
        assert(rest[n - 1] == results[n as int]);
        lemma_poll_pending_then_done_from(r + 1, rest, (n - 1) as nat, v);
        assert(seq![backoff_millis(r + 1) as u64] + Seq::new(
            (n - 1) as nat,
            |k: int| backoff_millis((r + 1 + k + 1) as nat) as u64,
        ) =~= Seq::new(n, |k: int| backoff_millis((r + k + 1) as nat) as u64));
    } else {
        assert(Seq::new(0, |k: int| backoff_millis((r + k + 1) as nat) as u64) =~= Seq::<u64>::empty());
    }
}

/// Polls that report "pending" `n` times, `n` at most the retry limit, and
/// then a completed operation with id `v`: the loop waits `base·1², base·2²,
/// …, base·n²` and finishes with `v`, after `n + 1` polls.
pub proof fn lemma_poll_pending_then_done(results: Seq<PollResult>, n: nat, v: nat)
    requires
        n <= MAX_RETRIES,
        results.len() == n + 1,
        forall|i: int| 0 <= i < n ==> results[i] is Pending,
        results[n as int] matches PollResult::Completed(t) && parse_unsigned_spec(t@, u64::MAX as nat)
            == Some(v),
    ensures
        poll_run(0, results) == (
            Seq::new(n, |k: int| backoff_millis((k + 1) as nat) as u64),
            Some(PollStep::Done(v as u64)),
        ),
{
    lemma_poll_pending_then_done_from(0, results, n, v);
    assert(Seq::new(n, |k: int| backoff_millis((0 + k + 1) as nat) as u64) =~= Seq::new(
        n,
        |k: int| backoff_millis((k + 1) as nat) as u64,
    ));
}

proof fn lemma_poll_exhausted_from(r: nat, results: Seq<PollResult>)
    requires
        r <= MAX_RETRIES,
        results.len() >= MAX_RETRIES + 1 - r,
        forall|i: int| 0 <= i < MAX_RETRIES + 1 - r ==> results[i] is Pending,
    ensures
        poll_run(r, results) == (
            Seq::new((MAX_RETRIES - r) as nat, |k: int| backoff_millis((r + k + 1) as nat) as u64),
            Some(PollStep::Failed(RobloxApiError::AssetGetFailed)),
        ),
    decreases MAX_RETRIES - r,
{
    if r < MAX_RETRIES {
        let rest = results.drop_first();
        assert forall|i: int| 0 <= i < MAX_RETRIES + 1 - (r + 1) implies rest[i] is Pending by {
            assert(rest[i] == results[i + 1]);
        }
        lemma_poll_exhausted_from(r + 1, rest);
        assert(seq![backoff_millis(r + 1) as u64] + Seq::new(
            (MAX_RETRIES - (r + 1)) as nat,
            |k: int| backoff_millis((r + 1 + k + 1) as nat) as u64,
        ) =~= Seq::new((MAX_RETRIES - r) as nat, |k: int| backoff_millis((r + k + 1) as nat) as u64));
    } else {
        assert(Seq::new(0, |k: int| backoff_millis((r + k + 1) as nat) as u64) =~= Seq::<u64>::empty());
    }
}

/// Polls that report "pending" one time more than the retry limit: the loop
/// waits after each of the first ones and then fails with `AssetGetFailed`.
pub proof fn lemma_poll_exhausted(results: Seq<PollResult>)
    requires
        results.len() >= MAX_RETRIES + 1,
        forall|i: int| 0 <= i < MAX_RETRIES + 1 ==> results[i] is Pending,
    ensures
        poll_run(0, results) == (
            Seq::new(MAX_RETRIES as nat, |k: int| backoff_millis((k + 1) as nat) as u64),
            Some(PollStep::Failed(RobloxApiError::AssetGetFailed)),
        ),
{
    lemma_poll_exhausted_from(0, results);
    assert(Seq::new(MAX_RETRIES as nat, |k: int| backoff_millis((0 + k + 1) as nat) as u64) =~= Seq::new(
        MAX_RETRIES as nat,
        |k: int| backoff_millis((k + 1) as nat) as u64,
    ));
}

/// The creator that a group id or a user id names.
pub fn creator_for(group_id: Option<u64>, user_id: Option<u64>) -> (r: Result<AssetCreator, RobloxApiError>)
    requires
        group_id is Some || user_id is Some,
    ensures
        r == creator_spec(group_id, user_id),
{
    match (group_id, user_id) {
        (Some(g), None) => Ok(AssetCreator::Group(g)),
        (None, Some(u)) => Ok(AssetCreator::User(u)),
        _ => Err(RobloxApiError::AmbiguousCreatorType),
    }
}

impl OpenCloudClient {
    /// A key-scheme client for `credentials`, which name a creator.
    pub fn new(credentials: RobloxCredentials) -> (r: Result<OpenCloudClient, RobloxApiError>)
        requires
            credentials.group_id is Some || credentials.user_id is Some,
        ensures
            match creator_spec(credentials.group_id, credentials.user_id) {
                Err(e) => r == Err::<OpenCloudClient, RobloxApiError>(e),
                Ok(c) => if credentials.api_key is None {
                    r == Err::<OpenCloudClient, RobloxApiError>(RobloxApiError::MissingAuth)
                } else {
                    r matches Ok(client) && client.creator == c && client.credentials == credentials
                },
            },
    {
        let creator = match creator_for(credentials.group_id, credentials.user_id) {
            Ok(c) => c,
            Err(e) => {
                return Err(e);
            },
        };
        if credentials.api_key.is_none() {
            return Err(RobloxApiError::MissingAuth);
        }
        Ok(OpenCloudClient { credentials, creator })
    }
}

/// The id of an asynchronous operation from the path the service returned.
pub fn operation_id(path: Option<String>) -> (r: Result<String, RobloxApiError>)
    ensures
        match operation_id_spec(
            match path {
                Some(p) => Some(p@),
                None => None,
            },
        ) {
            Ok(id) => r matches Ok(s) && s@ == id,
            Err(e) => r == Err::<String, RobloxApiError>(e),
        },
{
    match path {
        None => Err(RobloxApiError::MissingOperationPath),
        Some(p) => {
            let text = chars_of(p.as_str());
            let prefix = chars_of("operations/");
            proof {
                reveal_strlit("operations/");
            }
            if !matches_at(&text, &prefix, 0) {
                return Err(RobloxApiError::MalformedOperationPath);
            }
            let mut rest: Vec<char> = Vec::new();
            let mut i: usize = 11;
            while i < text.len()
                invariant
                    11 <= i <= text@.len(),
                    rest@ == text@.subrange(11, i as int),
                decreases text@.len() - i,
            {
                rest.push(text[i]);
                i = i + 1;
                assert(rest@ =~= text@.subrange(11, i as int));
            }
            Ok(crate::text::string_from_chars(&rest))
        },
    }
}

/// The error for an HTTP failure that the key-scheme service reported.
pub fn cloud_status_error(code: u16, message: String) -> (r: RobloxApiError)
    ensures
        r == (RobloxApiError::ResponseError { status: status_or_default(code), body: message }),
{
    let status = if 100 <= code && code < 1000 {
        code
    } else {
        200
    };
    RobloxApiError::ResponseError { status, body: message }
}

/// The ids of an upload that this scheme finished: public and content id are
/// the same.
pub fn completed_upload(asset_id: u64) -> (r: UploadResponse)
    ensures
        r.asset_id == asset_id,
        r.backing_asset_id == asset_id,
{
    UploadResponse { asset_id, backing_asset_id: asset_id }
}

impl AssetPoll {
    /// A poll loop before its first poll.
    pub fn new() -> (r: AssetPoll)
        ensures
            r.retries == 0,
    {
        AssetPoll { retries: 0 }
    }

    /// Takes the result of a poll and says what to do next.
    pub fn on_poll(&mut self, result: PollResult) -> (r: PollStep)
        requires
            old(self).retries <= MAX_RETRIES,
        ensures
            (final(self).retries as nat, r) == poll_transition(old(self).retries as nat, result),
            final(self).retries <= MAX_RETRIES,
    {
        match result {
            PollResult::Completed(text) => {
                let chars = chars_of(text.as_str());
                match parse_unsigned(&chars, u64::MAX) {
                    Some(v) => PollStep::Done(v),
                    None => PollStep::Failed(RobloxApiError::AssetGetFailed),
                }
            },
            PollResult::Pending => {
                if self.retries >= MAX_RETRIES {
                    PollStep::Failed(RobloxApiError::AssetGetFailed)
                } else {
                    self.retries = self.retries + 1;
                    let k = self.retries as u64;
                    assert(k * k <= 25) by (nonlinear_arith)
                        requires
                            k <= 5,
                    ;
                    PollStep::Wait { millis: INITIAL_DELAY_MILLIS * (k * k) }
                }
            },
        }
    }
}

proof fn lemma_poll_run_push(r: nat, s: Seq<PollResult>, x: PollResult)
    requires
        poll_run(r, s).1 is None,
    ensures
        poll_run(r, s.push(x)) == match poll_transition(r + s.len(), x).1 {
            PollStep::Wait { millis } => (poll_run(r, s).0.push(millis), None::<PollStep>),
            step => (poll_run(r, s).0, Some(step)),
        },
    decreases s.len(),
{
    if s.len() == 0 {
        assert(s.push(x)[0] == x);
        assert(s.push(x).drop_first() =~= Seq::<PollResult>::empty());
        assert(poll_run(r, s) == (Seq::<u64>::empty(), None::<PollStep>));
        match poll_transition(r, x).1 {
            PollStep::Wait { millis } => {
                assert(poll_run(poll_transition(r, x).0, s.push(x).drop_first()) == (Seq::<u64>::empty(), None::<PollStep>));
                assert(seq![millis] + Seq::<u64>::empty() =~= Seq::<u64>::empty().push(millis));
            },
            _ => {},
        }
    } else {
        assert(s.push(x)[0] == s[0]);
        assert(s.push(x).drop_first() =~= s.drop_first().push(x));
        let (next, step) = poll_transition(r, s[0]);
        assert(step is Wait);
        assert(next == r + 1) by {
            match s[0] {
                PollResult::Completed(_) => {},
                PollResult::Pending => {},
            }
        }
        lemma_poll_run_push(r + 1, s.drop_first(), x);
        let millis = step->millis;
        let rest = poll_run(r + 1, s.drop_first()).0;
        assert((seq![millis] + rest).push(poll_transition(r + s.len(), x).1->millis) =~= seq![millis] + rest.push(poll_transition(r + s.len(), x).1->millis));
    }
}

/// Runs a poll loop: calls `poll` for the state of the operation and `wait`
/// with each wait the loop asks for. Returns the step it ended with and the
/// number of polls made: for the results that `poll` returned, in order, the
/// loop's steps end exactly after that many polls with that step, so a
/// completed operation ends it at once and the poll after the last allowed
/// wait that is still pending fails it.
pub fn poll_until_done<P: FnMut() -> PollResult, W: FnMut(u64)>(poll: P, wait: W) -> (r: (PollStep, usize))
    requires
        forall|p: P| #[trigger] p.requires(()),
        forall|d: u64, w: W| #[trigger] w.requires((d,)),
    ensures
        1 <= r.1 <= MAX_RETRIES + 1,
        !(r.0 is Wait),
        exists|results: Seq<PollResult>|
            results.len() == r.1 && (#[trigger] poll_run(0, results)).1 == Some(r.0),
{
    let mut poll = poll;
    let mut wait = wait;
    let mut state = AssetPoll::new();
    let mut made: usize = 0;
    let ghost mut results: Seq<PollResult> = Seq::empty();
    loop
        invariant
            made == results.len(),
            state.retries as nat == made,
            made <= MAX_RETRIES,
            poll_run(0, results).1 is None,
            forall|p: P| #[trigger] p.requires(()),
            forall|d: u64, w: W| #[trigger] w.requires((d,)),
        decreases MAX_RETRIES - made,
    {
        let result = poll();
        proof {
            lemma_poll_run_push(0, results, result);
            results = results.push(result);
        }
        made = made + 1;
        match state.on_poll(result) {
            PollStep::Wait { millis } => {
                wait(millis);
            },
            step => {
                return (step, made);
            },
        }
    }
}

} // verus!
