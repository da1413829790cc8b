use crate::fuse_ops::EgnyteEntry;
use crate::paths::push_str;
use vstd::prelude::*;

verus! {

/// Whole seconds in a millisecond count, rounded down.
pub fn timestamp_secs(millis: u64) -> (r: u64)
    ensures
        r == millis / 1000,
{
    millis / 1000
}

/// A secret read from the credential store is usable only when it is not empty.
pub fn usable_secret(found: Option<String>) -> (r: Option<String>)
    ensures
        match found {
            Some(s) => if s@.len() > 0 {
                r == Some(s)
            } else {
                r is None
            },
            None => r is None,
        },
{
    match found {
        Some(s) => if s.as_str().is_empty() {
            None
        } else {
            Some(s)
        },
        None => None,
    }
}

/// A listing entry reported among the folders: folders carry no size.
pub open spec fn as_folder(e: EgnyteEntry) -> EgnyteEntry {
    EgnyteEntry { is_folder: true, size: 0, ..e }
}

/// A listing entry reported among the files.
pub open spec fn as_file(e: EgnyteEntry) -> EgnyteEntry {
    EgnyteEntry { is_folder: false, ..e }
}

/// The children of a folder as the remote lists them: its folders, then its
/// files, each in the order given.
pub fn merge_listing(folders: Vec<EgnyteEntry>, files: Vec<EgnyteEntry>) -> (r: Vec<EgnyteEntry>)
    ensures
        r@ == folders@.map_values(|e: EgnyteEntry| as_folder(e)) + files@.map_values(
            |e: EgnyteEntry| as_file(e),
        ),
{
    let mut out: Vec<EgnyteEntry> = Vec::new();
    let mut folders = folders;
    let mut files = files;
    let ghost fo = folders@;
    let ghost fi = files@;
    let m = files.len();
    let mut j: usize = 0;
    while j < m
        invariant
            m == fi.len(),
            j <= m,
            files@ == fi.take(m - j),
            out@ == fi.subrange(m - j, m as int).map_values(|e: EgnyteEntry| as_file(e)),
        decreases m - j,
    {
        let e = files.pop().unwrap();
        out.insert(0, EgnyteEntry { is_folder: false, ..e });
        j = j + 1;
        assert(files@ =~= fi.take(m - j));
        assert(out@ =~= fi.subrange(m - j, m as int).map_values(|e: EgnyteEntry| as_file(e)));
    }
    assert(fi.subrange(0, m as int) =~= fi);
    let ghost tail = out@;
    let n = folders.len();
    let mut i: usize = 0;
    while i < n
        invariant
            n == fo.len(),
            i <= n,
            folders@ == fo.take(n - i),
            out@ == fo.subrange(n - i, n as int).map_values(|e: EgnyteEntry| as_folder(e)) + tail,
        decreases n - i,
    {
        let e = folders.pop().unwrap();
        out.insert(0, EgnyteEntry { is_folder: true, size: 0, ..e });
        i = i + 1;
        assert(folders@ =~= fo.take(n - i));
        assert(out@ =~= fo.subrange(n - i, n as int).map_values(|e: EgnyteEntry| as_folder(e))
            + tail);
    }
    assert(fo.subrange(0, n as int) =~= fo);
    out
}


/// The pause, in milliseconds, that a request arriving at `now` makes before
/// dispatch when the previous one was dispatched at `last`: what is left of
/// `min_interval` since then (a clock that reads earlier than `last` counts
/// as no time elapsed).
pub open spec fn pace_spec(last: Option<u64>, now: u64, min_interval: u64) -> int {
    match last {
        None => 0,
        Some(l) => {
            let elapsed: int = if now >= l {
                now - l
            } else {
                0
            };
            if elapsed < min_interval {
                min_interval - elapsed
            } else {
                0
            }
        },
    }
}

/// The single global pacer: a minimum spacing between the starts of two
/// requests.
pub struct RateLimiter {
    pub min_interval_ms: u64,
    pub last_call_ms: Option<u64>,
}

impl RateLimiter {
    /// A pacer that has dispatched nothing yet.
    pub fn new(min_interval_ms: u64) -> (r: Self)
        ensures
            r.min_interval_ms == min_interval_ms,
            r.last_call_ms is None,
    {
        RateLimiter { min_interval_ms, last_call_ms: None }
    }

    /// The pause before a request that arrives at `now_ms` may be dispatched.
    pub fn wait_if_needed(&self, now_ms: u64) -> (r: u64)
        ensures
            r == pace_spec(self.last_call_ms, now_ms, self.min_interval_ms),
    {
        match self.last_call_ms {
            None => 0,
            Some(l) => {
                let elapsed = now_ms.saturating_sub(l);
                if elapsed < self.min_interval_ms {
                    self.min_interval_ms - elapsed
                } else {
                    0
                }
            },
        }
    }

    /// Stamps `at_ms` as the instant of the latest dispatch.
    pub fn record_call(&mut self, at_ms: u64)
        ensures
            final(self).min_interval_ms == old(self).min_interval_ms,
            final(self).last_call_ms == Some(at_ms),
    {
        self.last_call_ms = Some(at_ms);
    }
}

/// Requests paced one after another, each arriving no earlier than the
/// previous dispatch and dispatched no earlier than its pause allows, start
/// at least `min_interval` apart: the last of `n` starts no earlier than
/// `(n - 1) * min_interval` after the first.
pub proof fn lemma_pacing(min_interval: u64, arrivals: Seq<u64>, dispatches: Seq<u64>)
    requires
        arrivals.len() == dispatches.len(),
        dispatches.len() >= 1,
        forall|k: int|
            1 <= k < dispatches.len() ==> arrivals[k] >= #[trigger] dispatches[k - 1],
        forall|k: int|
            1 <= k < dispatches.len() ==> #[trigger] dispatches[k] >= arrivals[k] + pace_spec(
                Some(dispatches[k - 1]),
                arrivals[k],
                min_interval,
            ),
    ensures
        dispatches.last() >= dispatches[0] + (dispatches.len() - 1) * min_interval,
{
    lemma_pacing_upto(min_interval, arrivals, dispatches, dispatches.len() - 1);
}

proof fn lemma_pacing_upto(min_interval: u64, arrivals: Seq<u64>, dispatches: Seq<u64>, j: int)
    requires
        arrivals.len() == dispatches.len(),
        0 <= j < dispatches.len(),
        forall|k: int|
            1 <= k < dispatches.len() ==> arrivals[k] >= #[trigger] dispatches[k - 1],
        forall|k: int|
            1 <= k < dispatches.len() ==> #[trigger] dispatches[k] >= arrivals[k] + pace_spec(
                Some(dispatches[k - 1]),
                arrivals[k],
                min_interval,
            ),
    ensures
        dispatches[j] >= dispatches[0] + j * min_interval,
    decreases j,
{
    if j > 0 {
        lemma_pacing_upto(min_interval, arrivals, dispatches, j - 1);
        assert(dispatches[j] >= arrivals[j] + pace_spec(
            Some(dispatches[j - 1]),
            arrivals[j],
            min_interval,
        ));
        assert(arrivals[j] >= dispatches[j - 1]);
        assert(dispatches[j] >= dispatches[j - 1] + min_interval);
        assert(j * min_interval == (j - 1) * min_interval + min_interval) by (nonlinear_arith);
    } else {
        assert(j * min_interval == 0) by (nonlinear_arith)
            requires
                j == 0,
        ;
    }
}

/// A token is renewed ahead of use when it has no known expiry or expires
/// within this many milliseconds.
pub const REFRESH_MARGIN_MS: u64 = 60_000;

/// The lifetime assumed when the token endpoint names none, in seconds.
pub const DEFAULT_EXPIRES_IN_SECS: u64 = 3600;

/// Whether a token that expires at `expires_at` must be renewed at `now`.
pub open spec fn needs_refresh_spec(expires_at: Option<u64>, now: u64) -> bool {
    match expires_at {
        None => true,
        Some(e) => e < now + REFRESH_MARGIN_MS,
    }
}

/// `now_ms + secs` seconds, on the millisecond clock, capped at its largest value.
pub open spec fn deadline_spec(now_ms: u64, secs: int) -> u64 {
    if now_ms + secs * 1000 > u64::MAX {
        u64::MAX
    } else {
        (now_ms + secs * 1000) as u64
    }
}

/// Where a stored token of lifetime `expires_in` issued at `issued_at` (Unix
/// seconds) expires on the millisecond clock that reads `now_ms` at Unix time
/// `now_secs`; an expiry already past is now.
pub open spec fn initial_expiry_spec(
    issued_at: Option<i64>,
    expires_in: Option<u64>,
    now_secs: u64,
    now_ms: u64,
) -> Option<u64> {
    match (issued_at, expires_in) {
        (Some(i), Some(e)) => {
            let left: int = i + e - now_secs;
            Some(
                deadline_spec(
                    now_ms,
                    if left > 0 {
                        left
                    } else {
                        0
                    },
                ),
            )
        },
        _ => None,
    }
}

fn deadline(now_ms: u64, secs: u128) -> (r: u64)
    requires
        secs <= 2 * (u64::MAX as u128),
    ensures
        r == deadline_spec(now_ms, secs as int),
{
    let total: u128 = now_ms as u128 + secs * 1000;
    if total > u64::MAX as u128 {
        u64::MAX
    } else {
        total as u64
    }
}

/// The expiry of a stored token on the millisecond clock.
pub fn initial_expiry(issued_at: Option<i64>, expires_in: Option<u64>, now_secs: u64, now_ms: u64) -> (r:
    Option<u64>)
    ensures
        r == initial_expiry_spec(issued_at, expires_in, now_secs, now_ms),
{
    match (issued_at, expires_in) {
        (Some(i), Some(e)) => {
            let left: i128 = i as i128 + e as i128 - now_secs as i128;
            if left > 0 {
                Some(deadline(now_ms, left as u128))
            } else {
                Some(deadline(now_ms, 0))
            }
        },
        _ => None,
    }
}

/// The current bearer credential and where it expires on the millisecond clock.
pub struct TokenState {
    pub access_token: Option<String>,
    pub expires_at_ms: Option<u64>,
}

impl TokenState {
    /// A token state holding `access_token`, expiring at `expires_at_ms`.
    pub fn new(access_token: Option<String>, expires_at_ms: Option<u64>) -> (r: Self)
        ensures
            r.access_token == access_token,
            r.expires_at_ms == expires_at_ms,
    {
        TokenState { access_token, expires_at_ms }
    }

    /// Whether the token must be renewed before a request at `now_ms`.
    pub fn needs_refresh(&self, now_ms: u64) -> (r: bool)
        ensures
            r == needs_refresh_spec(self.expires_at_ms, now_ms),
    {
        match self.expires_at_ms {
            None => true,
            Some(e) => e.saturating_sub(now_ms) < REFRESH_MARGIN_MS,
        }
    }

    /// Takes a token that the token endpoint issued at `now_ms`, with the
    /// lifetime it named, if any; hands back the lifetime used, in seconds.
    pub fn apply_refresh(&mut self, token: String, expires_in: Option<u64>, now_ms: u64) -> (r: u64)
        ensures
            r == (match expires_in {
                Some(e) => e,
                None => DEFAULT_EXPIRES_IN_SECS,
            }),
            final(self).access_token == Some(token),
            final(self).expires_at_ms == Some(deadline_spec(now_ms, r as int)),
    {
        let secs = match expires_in {
            Some(e) => e,
            None => DEFAULT_EXPIRES_IN_SECS,
        };
        self.access_token = Some(token);
        self.expires_at_ms = Some(deadline(now_ms, secs as u128));
        secs
    }
}

/// The record of a token as it is persisted for other processes.
pub struct TokenRecord {
    pub access_token: String,
    pub expires_in: u64,
    pub token_type: String,
    pub issued_at: i64,
}

/// The record to persist for a token of lifetime `expires_in` issued at
/// `issued_at`.
pub fn token_record(access_token: String, expires_in: u64, issued_at: i64) -> (r: TokenRecord)
    ensures
        r.access_token == access_token,
        r.expires_in == expires_in,
        r.token_type@ == seq!['B', 'e', 'a', 'r', 'e', 'r'],
        r.issued_at == issued_at,
{
    let token_type = "Bearer".to_owned();
    proof {
        reveal_strlit("Bearer");
    }
    assert(token_type@ =~= seq!['B', 'e', 'a', 'r', 'e', 'r']);
    TokenRecord { access_token, expires_in, token_type, issued_at }
}

/// Retries that a rate-limited request gets.
pub const MAX_RETRIES: u32 = 5;

/// The first pause after a rate-limited response, in milliseconds.
pub const INITIAL_BACKOFF_MS: u64 = 500;

/// Status of an authorization failure.
pub const STATUS_UNAUTHORIZED: u16 = 401;

/// Status of a rate-limited response.
pub const STATUS_TOO_MANY_REQUESTS: u16 = 429;

/// A 2xx status.
pub open spec fn is_success(status: u16) -> bool {
    200 <= status < 300
}

/// What a request does after a response.
#[derive(PartialEq, Eq, Structural, Clone, Copy, Debug)]
pub enum RetryStep {
    /// Hand the response back.
    Succeed,
    /// Fail with this status.
    Fail(u16),
    /// Sleep this many milliseconds, then send again.
    Backoff(u64),
    /// Renew the token, then send once more with it.
    RefreshAndResend,
}

/// Where a request stands in its retries.
#[derive(PartialEq, Eq, Structural, Clone, Copy, Debug)]
pub struct RetryState {
    pub retries_left: u32,
    pub backoff_ms: u64,
    /// Whether the token was renewed after an authorization failure.
    pub refreshed: bool,
}

/// The pause that comes with `left` retries remaining: 500 ms doubled for
/// each retry already spent.
pub open spec fn backoff_for(left: u32) -> u64 {
    if left >= 5 {
        500
    } else if left == 4 {
        1000
    } else if left == 3 {
        2000
    } else if left == 2 {
        4000
    } else if left == 1 {
        8000
    } else {
        16000
    }
}

/// The retry state of a request that has not been answered yet.
pub open spec fn initial_retry() -> RetryState {
    RetryState { retries_left: MAX_RETRIES, backoff_ms: INITIAL_BACKOFF_MS, refreshed: false }
}

/// The next state and step after a response with `status`.
pub open spec fn retry_step_spec(s: RetryState, status: u16) -> (RetryState, RetryStep) {
    if s.refreshed {
        if is_success(status) {
            (s, RetryStep::Succeed)
        } else {
            (s, RetryStep::Fail(STATUS_UNAUTHORIZED))
        }
    } else if status == STATUS_UNAUTHORIZED {
        (RetryState { refreshed: true, ..s }, RetryStep::RefreshAndResend)
    } else if status == STATUS_TOO_MANY_REQUESTS && s.retries_left > 0 {
        (
            RetryState {
                retries_left: (s.retries_left - 1) as u32,
                backoff_ms: (s.backoff_ms * 2) as u64,
                ..s
            },
            RetryStep::Backoff(s.backoff_ms),
        )
    } else if is_success(status) {
        (s, RetryStep::Succeed)
    } else {
        (s, RetryStep::Fail(status))
    }
}

/// A step that ends the request.
pub open spec fn is_final(step: RetryStep) -> bool {
    step is Succeed || step is Fail
}

/// The steps that a request takes when the responses come with `statuses`,
/// up to the first step that ends it.
pub open spec fn retry_run(s: RetryState, statuses: Seq<u16>) -> Seq<RetryStep>
    decreases statuses.len(),
{
    if statuses.len() == 0 {
        Seq::empty()
    } else {
        let (s2, step) = retry_step_spec(s, statuses[0]);
        if is_final(step) {
            seq![step]
        } else {
            seq![step] + retry_run(s2, statuses.drop_first())
        }
    }
}

impl RetryState {
    /// At most five retries left, and the pause that goes with them.
    pub open spec fn wf(&self) -> bool {
        self.retries_left <= MAX_RETRIES && self.backoff_ms == backoff_for(self.retries_left)
    }

    /// The state of a request that has not been answered yet.
    pub fn new() -> (r: Self)
        ensures
            r == initial_retry(),
            r.wf(),
    {
        RetryState { retries_left: MAX_RETRIES, backoff_ms: INITIAL_BACKOFF_MS, refreshed: false }
    }

    /// Decides what follows a response with `status`.
    pub fn on_response(&mut self, status: u16) -> (r: RetryStep)
        requires
            old(self).wf(),
        ensures
            final(self).wf(),
            (*final(self), r) == retry_step_spec(*old(self), status),
    {
        if self.refreshed {
            if 200 <= status && status < 300 {
                RetryStep::Succeed
            } else {
                RetryStep::Fail(STATUS_UNAUTHORIZED)
            }
        } else if status == STATUS_UNAUTHORIZED {
            self.refreshed = true;
            RetryStep::RefreshAndResend
        } else if status == STATUS_TOO_MANY_REQUESTS && self.retries_left > 0 {
            let b = self.backoff_ms;
            self.retries_left = self.retries_left - 1;
            self.backoff_ms = b * 2;
            RetryStep::Backoff(b)
        } else if 200 <= status && status < 300 {
            RetryStep::Succeed
        } else {
            RetryStep::Fail(status)
        }
    }
}

/// A request answered with 429 every time sleeps 500, 1000, 2000, 4000 and
/// 8000 ms between its attempts, then fails with 429.
pub proof fn lemma_backoff_sequence(statuses: Seq<u16>)
    requires
        statuses.len() >= 6,
        forall|k: int| 0 <= k < statuses.len() ==> #[trigger] statuses[k] == STATUS_TOO_MANY_REQUESTS,
    ensures
        retry_run(initial_retry(), statuses) == seq![
            RetryStep::Backoff(500),
            RetryStep::Backoff(1000),
            RetryStep::Backoff(2000),
            RetryStep::Backoff(4000),
            RetryStep::Backoff(8000),
            RetryStep::Fail(STATUS_TOO_MANY_REQUESTS),
        ],
{
    let s0 = initial_retry();
    let t1 = statuses.drop_first();
    let t2 = t1.drop_first();
    let t3 = t2.drop_first();
    let t4 = t3.drop_first();
    let t5 = t4.drop_first();
    assert(t1[0] == statuses[1] && t2[0] == statuses[2] && t3[0] == statuses[3]);
    assert(t4[0] == statuses[4] && t5[0] == statuses[5]);
    let s1 = retry_step_spec(s0, 429).0;
    let s2 = retry_step_spec(s1, 429).0;
    let s3 = retry_step_spec(s2, 429).0;
    let s4 = retry_step_spec(s3, 429).0;
    let s5 = retry_step_spec(s4, 429).0;
    assert(s5.retries_left == 0 && !s5.refreshed);
    assert(retry_run(s5, t5) == seq![RetryStep::Fail(STATUS_TOO_MANY_REQUESTS)]);
    assert(retry_run(s4, t4) =~= seq![RetryStep::Backoff(8000)] + retry_run(s5, t5));
    assert(retry_run(s3, t3) =~= seq![RetryStep::Backoff(4000)] + retry_run(s4, t4));
    assert(retry_run(s2, t2) =~= seq![RetryStep::Backoff(2000)] + retry_run(s3, t3));
    assert(retry_run(s1, t1) =~= seq![RetryStep::Backoff(1000)] + retry_run(s2, t2));
    assert(retry_run(s0, statuses) =~= seq![RetryStep::Backoff(500)] + retry_run(s1, t1));
    assert(retry_run(s0, statuses) =~= seq![
        RetryStep::Backoff(500),
        RetryStep::Backoff(1000),
        RetryStep::Backoff(2000),
        RetryStep::Backoff(4000),
        RetryStep::Backoff(8000),
        RetryStep::Fail(STATUS_TOO_MANY_REQUESTS),
    ]);
}

/// A request answered first with 401 renews its token exactly once and
/// resends: a success then is handed back, anything else fails the request.
pub proof fn lemma_unauthorized_recovery(statuses: Seq<u16>)
    requires
        statuses.len() >= 2,
        statuses[0] == STATUS_UNAUTHORIZED,
    ensures
        is_success(statuses[1]) ==> retry_run(initial_retry(), statuses) == seq![
            RetryStep::RefreshAndResend,
            RetryStep::Succeed,
        ],
        !is_success(statuses[1]) ==> retry_run(initial_retry(), statuses) == seq![
            RetryStep::RefreshAndResend,
            RetryStep::Fail(STATUS_UNAUTHORIZED),
        ],
{
    let s1 = retry_step_spec(initial_retry(), statuses[0]).0;
    let t1 = statuses.drop_first();
    assert(t1[0] == statuses[1]);
    assert(retry_run(initial_retry(), statuses) =~= seq![RetryStep::RefreshAndResend] + retry_run(
        s1,
        t1,
    ));
    if is_success(statuses[1]) {
        assert(retry_run(s1, t1) =~= seq![RetryStep::Succeed]);
    } else {
        assert(retry_run(s1, t1) =~= seq![RetryStep::Fail(STATUS_UNAUTHORIZED)]);
    }
}

/// The base address of the account on `domain`.
pub fn base_url(domain: &str) -> (r: String)
    ensures
        r@ == "https://"@ + domain@ + ".egnyte.com"@,
{
    push_str(push_str("https://".to_owned(), domain), ".egnyte.com")
}

/// The endpoint that lists or describes the object at `path`.
pub fn metadata_endpoint(path: &str) -> (r: String)
    ensures
        r@ == "/pubapi/v1/fs"@ + path@,
{
    push_str("/pubapi/v1/fs".to_owned(), path)
}

/// The endpoint that serves the bytes of the file at `path`.
pub fn content_endpoint(path: &str) -> (r: String)
    ensures
        r@ == "/pubapi/v1/fs-content"@ + path@,
{
    push_str("/pubapi/v1/fs-content".to_owned(), path)
}

/// The full address of `endpoint` under `base`.
pub fn request_url(base: &str, endpoint: &str) -> (r: String)
    ensures
        r@ == base@ + endpoint@,
{
    push_str(base.to_owned(), endpoint)
}

} // verus!
