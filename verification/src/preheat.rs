//! The decisions of the preheat engine: how many downloads may run, what a
//! finished download means, how each file's attempts proceed, and the updates
//! sent about it.

use vstd::prelude::*;
use crate::models::{AppError, FileStatus, FileUpdate, HeaderKV, PartialModeConfig, RedirectContext, RunSettings, SiteSettings, WarningItem};
use crate::text::{decimal, push_all, push_decimal};
use crate::crawl::pow2;
use crate::url::{host_of_url, url_host};
use crate::api::{is_success, status_text, header_value_ok, proxy_url_accepted, non_empty, header_value_accepted, check_proxy_url};

verus! {

broadcast use vstd::string::group_string_axioms;

/// Cookie refreshes a file's task may try.
pub const MAX_COOKIE_REFRESHES: u32 = 3;

/// Times a file is sent back to the queue after firewall pages.
pub const MAX_REQUEUES: u32 = 3;

/// Smallest body size (bytes) of the firewall's challenge page.
pub const CHALLENGE_PAGE_MIN: u64 = 4300;

/// Largest body size (bytes) of the firewall's challenge page.
pub const CHALLENGE_PAGE_MAX: u64 = 4350;

/// `floor(rate * num / den)`.
pub open spec fn share_of(rate: u64, num: nat, den: nat) -> nat {
    (rate as nat) * num / den
}

fn share(rate: u64, num: u64, den: u64) -> (r: u64)
    requires
        num <= den,
        den > 0,
    ensures
        r as nat == share_of(rate, num as nat, den as nat),
{
    proof {
        assert((rate as nat) * (num as nat) <= (rate as nat) * (den as nat)) by (nonlinear_arith)
            requires num <= den;
        assert((rate as nat) * (num as nat) / (den as nat) <= rate as nat) by (nonlinear_arith)
            requires (rate as nat) * (num as nat) <= (rate as nat) * (den as nat), den > 0;
        assert((rate as nat) * (num as nat) <= (u64::MAX as nat) * (u64::MAX as nat))
            by (nonlinear_arith) requires rate <= u64::MAX, num <= u64::MAX;
    }
    ((rate as u128) * (num as u128) / (den as u128)) as u64
}

/// How many downloads may run: all `max_conn` without a rate limit; with one,
/// the number the adaptive controller has reached, capped at `max_conn`.
pub open spec fn concurrency_limit_spec(rate_limit: u64, max_conn: usize, current: usize) -> usize {
    if rate_limit > 0 && current < max_conn {
        current
    } else {
        max_conn
    }
}

/// The number of downloads the dispatcher may run now: never more than
/// `max_conn`, the hard limit, whatever the controller's value.
pub fn concurrency_limit(rate_limit: u64, max_conn: usize, current: usize) -> (r: usize)
    ensures
        r == concurrency_limit_spec(rate_limit, max_conn, current),
        r <= max_conn,
{
    if rate_limit > 0 && current < max_conn {
        current
    } else {
        max_conn
    }
}

/// One second of the adaptive controller: with a rate limit, while the speed is
/// below 95% of it and files are waiting, one more download is allowed, up to
/// `max_conn`.
pub open spec fn controller_step_spec(
    rate_limit: u64,
    speed: u64,
    current: usize,
    max_conn: usize,
    queue_nonempty: bool,
) -> usize {
    if rate_limit > 0 && (speed as nat) < share_of(rate_limit, 95, 100) && current < max_conn
        && queue_nonempty {
        (current + 1) as usize
    } else {
        current
    }
}

/// The adaptive controller's step.
pub fn controller_step(rate_limit: u64, speed: u64, current: usize, max_conn: usize, queue_nonempty: bool) -> (r: usize)
    ensures
        r == controller_step_spec(rate_limit, speed, current, max_conn, queue_nonempty),
{
    if rate_limit > 0 && speed < share(rate_limit, 95, 100) && current < max_conn && queue_nonempty {
        current + 1
    } else {
        current
    }
}

/// The controller only ever adds one download at a time, never removes one,
/// and never goes past `max_conn` once within it.
pub proof fn lemma_controller_bounded(
    rate_limit: u64,
    speed: u64,
    current: usize,
    max_conn: usize,
    queue_nonempty: bool,
)
    ensures
        current <= controller_step_spec(rate_limit, speed, current, max_conn, queue_nonempty)
            <= current + 1,
        current <= max_conn ==> controller_step_spec(rate_limit, speed, current, max_conn, queue_nonempty)
            <= max_conn,
{
}

/// Downloads in flight stay within `max_conn` over a whole run: a download
/// starts only while fewer than the limit run, and the limit never exceeds
/// `max_conn`, whatever the controller's value, so the count after the start
/// is still within `max_conn`.
pub proof fn lemma_start_within_max_conn(rate_limit: u64, max_conn: usize, current: usize, active: usize)
    requires
        active < concurrency_limit_spec(rate_limit, max_conn, current),
    ensures
        active + 1 <= max_conn,
{
}

/// The controller adds exactly one download each step while the rate is
/// limited, the speed is below 95% of the limit, fewer than `max_conn` may run
/// and files wait, so it can reach `max_conn`; otherwise it keeps the count. A
/// speed at or above 95% of the limit never adds one.
pub proof fn lemma_controller_grows_to_max(
    rate_limit: u64,
    speed: u64,
    current: usize,
    max_conn: usize,
    queue_nonempty: bool,
)
    ensures
        rate_limit > 0 && (speed as nat) * 100 + 100 <= (rate_limit as nat) * 95 && current < max_conn
            && queue_nonempty ==> controller_step_spec(rate_limit, speed, current, max_conn, queue_nonempty)
            == current + 1,
        (rate_limit == 0 || (speed as nat) * 100 >= (rate_limit as nat) * 95 || current >= max_conn
            || !queue_nonempty) ==> controller_step_spec(rate_limit, speed, current, max_conn, queue_nonempty)
            == current,
{
    let x = (rate_limit as nat) * 95;
    let sp = speed as nat;
    assert(share_of(rate_limit, 95, 100) == x / 100);
    if sp * 100 + 100 <= x {
        assert(sp + 1 <= x / 100) by (nonlinear_arith)
            requires sp * 100 + 100 <= x;
    }
    if sp * 100 >= x {
        assert(sp >= x / 100) by (nonlinear_arith)
            requires sp * 100 >= x;
    }
}

/// What a finished download's size says.
#[derive(Clone, Copy, Debug, PartialEq, Eq, Structural)]
pub enum BodyCheck {
    /// A short body of the firewall's challenge-page size: the cookie is not
    /// accepted.
    ChallengePage,
    /// Less than 95% of the file's size: the CDN's copy is incomplete.
    Incomplete,
    /// The body is complete.
    Complete,
}

/// A body under 95% of the expected size is short: a challenge page when its
/// size is 4300..=4350 bytes, else an incomplete copy. A body of at least 95%
/// of the size is complete, whatever its size.
pub open spec fn body_check_spec(bytes: u64, expected: u64) -> BodyCheck {
    if (bytes as nat) < share_of(expected, 95, 100) {
        if CHALLENGE_PAGE_MIN <= bytes && bytes <= CHALLENGE_PAGE_MAX {
            BodyCheck::ChallengePage
        } else {
            BodyCheck::Incomplete
        }
    } else {
        BodyCheck::Complete
    }
}

/// Classifies the body of a finished download.
pub fn body_check(bytes: u64, expected: u64) -> (r: BodyCheck)
    ensures
        r == body_check_spec(bytes, expected),
{
    if bytes < share(expected, 95, 100) {
        if CHALLENGE_PAGE_MIN <= bytes && bytes <= CHALLENGE_PAGE_MAX {
            BodyCheck::ChallengePage
        } else {
            BodyCheck::Incomplete
        }
    } else {
        BodyCheck::Complete
    }
}

/// How a cookie refresh ended.
#[derive(Clone, Copy, Debug, PartialEq, Eq, Structural)]
pub enum RefreshOutcome {
    /// Another task had already replaced the cookie.
    AlreadyRefreshed,
    /// The challenge was solved and the cookie replaced.
    Solved,
    /// Solving the challenge failed.
    Failed,
}

/// How a download attempt failed.
#[derive(Clone, Copy, Debug, PartialEq, Eq, Structural)]
pub enum DownloadFailure {
    /// The run was cancelled.
    Canceled,
    /// The server answered with this non-success status.
    Status(u16),
    /// The connection or the body's stream failed.
    Transport,
}

/// Statuses worth retrying: request timeout (408), too many requests (429)
/// and server errors (5xx). Other failures of the request itself (4xx above
/// all) are final.
pub open spec fn is_retryable_status(code: u16) -> bool {
    code == 408 || code == 429 || code >= 500
}

/// The retry settings of a run.
#[derive(Clone, Copy, Debug, PartialEq, Eq, Structural)]
pub struct RetryPolicy {
    /// Download attempts per file.
    pub max_attempts: u32,
    /// Pause before the first retry, in milliseconds.
    pub backoff_base_ms: u64,
    /// Longest pause, in milliseconds.
    pub backoff_max_ms: u64,
}

/// The retry settings a run's settings give: 3 attempts, 500 ms doubling up to
/// 10 s, unless set.
pub fn retry_policy(settings: &RunSettings) -> (r: RetryPolicy)
    ensures
        r.max_attempts == (match settings.max_attempts { Some(m) => m, None => 3u32 }),
        r.backoff_base_ms == (match settings.backoff_base_ms { Some(b) => b, None => 500u64 }),
        r.backoff_max_ms == (match settings.backoff_max_ms { Some(b) => b, None => 10000u64 }),
{
    RetryPolicy {
        max_attempts: match settings.max_attempts {
            Some(m) => m,
            None => 3,
        },
        backoff_base_ms: match settings.backoff_base_ms {
            Some(b) => b,
            None => 500,
        },
        backoff_max_ms: match settings.backoff_max_ms {
            Some(b) => b,
            None => 10000,
        },
    }
}

/// Exponential back-off after failed attempt number `attempts` (from 1):
/// `base * 2^(attempts - 1)`, at most `max`.
pub open spec fn retry_backoff_spec(base: nat, max: nat, attempts: nat) -> nat {
    let k: nat = if attempts == 0 { 0 } else { (attempts - 1) as nat };
    if base * pow2(k) <= max { base * pow2(k) } else { max }
}

/// `base * 2^k`, at most `max`.
pub open spec fn capped_double(base: nat, max: nat, k: nat) -> nat {
    if base * pow2(k) <= max { base * pow2(k) } else { max }
}

proof fn lemma_pow2_grows(k: nat, j: nat)
    requires
        k <= j,
    ensures
        1 <= pow2(k) <= pow2(j),
    decreases j,
{
    if k < j {
        lemma_pow2_grows(k, (j - 1) as nat);
    } else if k > 0 {
        lemma_pow2_grows((k - 1) as nat, (k - 1) as nat);
    }
}

proof fn lemma_capped_step(base: nat, max: nat, k: nat)
    ensures
        capped_double(base, max, k + 1) == (if 2 * capped_double(base, max, k) >= max {
            max
        } else {
            2 * capped_double(base, max, k)
        }),
{
    let p = pow2(k);
    assert(pow2(k + 1) == 2 * p);
    assert(base * pow2(k + 1) == 2 * (base * p)) by (nonlinear_arith)
        requires pow2(k + 1) == 2 * p;
}

proof fn lemma_capped_stays(base: nat, max: nat, k: nat, j: nat)
    requires
        k <= j,
        capped_double(base, max, k) == max || capped_double(base, max, k) == 0,
    ensures
        capped_double(base, max, j) == capped_double(base, max, k),
{
    lemma_pow2_grows(k, j);
    assert(base * pow2(k) <= base * pow2(j)) by (nonlinear_arith)
        requires pow2(k) <= pow2(j);
    if capped_double(base, max, k) == 0 && max > 0 {
        assert(base == 0) by (nonlinear_arith)
            requires base * pow2(k) == 0, pow2(k) >= 1;
        assert(base * pow2(j) == 0) by (nonlinear_arith)
            requires base == 0;
    }
}

/// The pause before the next attempt after failed attempt number `attempts`.
pub fn retry_backoff(base: u64, max: u64, attempts: u32) -> (r: u64)
    ensures
        r as nat == retry_backoff_spec(base as nat, max as nat, attempts as nat),
{
    let steps: u32 = if attempts == 0 { 0 } else { attempts - 1 };
    assert(pow2(0) == 1);
    let mut d: u64 = if base <= max { base } else { max };
    let mut k: u32 = 0;
    while k < steps
        invariant
            k <= steps,
            steps as nat == (if attempts == 0 { 0 } else { (attempts - 1) as nat }),
            d as nat == capped_double(base as nat, max as nat, k as nat),
            d <= max,
        decreases steps - k,
    {
        if d == 0 || d == max {
            proof {
                lemma_capped_stays(base as nat, max as nat, k as nat, steps as nat);
            }
            return d;
        }
        proof {
            lemma_capped_step(base as nat, max as nat, k as nat);
        }
        if d >= max - d {
            d = max;
        } else {
            d = d + d;
        }
        k = k + 1;
    }
    d
}

/// The next step of a file's task after a download attempt.
#[derive(Clone, Copy, Debug, PartialEq, Eq, Structural)]
pub enum FileStep {
    /// Report the refresh, refresh the cookie (unless another task did), and
    /// download again.
    RefreshCookie,
    /// Send the file back to the queue with one more retry, pause new
    /// downloads, report it queued, and end the task.
    Requeue,
    /// Wait this many milliseconds and download again.
    RetryAfter { backoff_ms: u64 },
    /// Report the file failed: the firewall keeps answering.
    FinishChallengeFailure,
    /// Report the file failed: the CDN's copy is incomplete.
    FinishIncomplete,
    /// Report the file done.
    FinishComplete,
    /// Report the file failed with the download's error.
    FinishError,
    /// Report the file canceled.
    FinishCanceled,
}

/// The attempt counters of one file's download task, with the run's retry
/// settings.
#[derive(Clone, Copy, Debug, PartialEq, Eq, Structural)]
pub struct FileAttempt {
    /// Download attempts made, counting the current one.
    pub attempts: u32,
    /// Cookie refreshes tried.
    pub cookie_refreshes: u32,
    /// The run's retry settings.
    pub policy: RetryPolicy,
}

/// The pause after the attempt the counters record.
pub open spec fn attempt_backoff(a: FileAttempt) -> u64 {
    retry_backoff_spec(a.policy.backoff_base_ms as nat, a.policy.backoff_max_ms as nat, a.attempts as nat)
        as u64
}

/// The step after an attempt that read `bytes` of a file of `expected` bytes
/// that has been requeued `retries` times.
pub open spec fn step_after_body(a: FileAttempt, bytes: u64, expected: u64, retries: u32) -> FileStep {
    match body_check_spec(bytes, expected) {
        BodyCheck::ChallengePage => if a.cookie_refreshes < MAX_COOKIE_REFRESHES {
            FileStep::RefreshCookie
        } else if retries < MAX_REQUEUES {
            FileStep::Requeue
        } else {
            FileStep::FinishChallengeFailure
        },
        BodyCheck::Incomplete => if a.attempts < a.policy.max_attempts {
            FileStep::RetryAfter { backoff_ms: attempt_backoff(a) }
        } else {
            FileStep::FinishIncomplete
        },
        BodyCheck::Complete => FileStep::FinishComplete,
    }
}

/// The step after an attempt that failed with `failure`: a cancelled run ends
/// the task; a final status fails the file; other failures are retried while
/// attempts remain.
pub open spec fn step_after_failure(a: FileAttempt, failure: DownloadFailure) -> FileStep {
    match failure {
        DownloadFailure::Canceled => FileStep::FinishCanceled,
        DownloadFailure::Status(code) if !is_retryable_status(code) => FileStep::FinishError,
        _ => if a.attempts < a.policy.max_attempts {
            FileStep::RetryAfter { backoff_ms: attempt_backoff(a) }
        } else {
            FileStep::FinishError
        },
    }
}

/// The attempts used that a solved challenge leaves: three fewer than the
/// limit (none when the limit is below three).
pub open spec fn restored_attempts(max_attempts: u32) -> u32 {
    if max_attempts >= 3 { (max_attempts - 3) as u32 } else { 0 }
}

impl FileAttempt {
    /// No attempt made yet.
    pub fn new(policy: RetryPolicy) -> (r: Self)
        ensures
            r.attempts == 0 && r.cookie_refreshes == 0 && r.policy == policy,
    {
        FileAttempt { attempts: 0, cookie_refreshes: 0, policy }
    }

    /// Counts the attempt about to be made.
    pub fn begin_attempt(&mut self)
        requires
            old(self).attempts < u32::MAX,
        ensures
            *final(self) == begun(*old(self)),
            final(self).attempts == old(self).attempts + 1,
    {
        self.attempts = self.attempts + 1;
    }

    fn backoff(&self) -> (r: u64)
        ensures
            r == attempt_backoff(*self),
    {
        retry_backoff(self.policy.backoff_base_ms, self.policy.backoff_max_ms, self.attempts)
    }

    /// The step after a download that returned a body of `bytes` bytes.
    pub fn after_body(&self, bytes: u64, expected: u64, retries: u32) -> (r: FileStep)
        ensures
            r == step_after_body(*self, bytes, expected, retries),
            r is RetryAfter ==> self.attempts < self.policy.max_attempts,
            r is RefreshCookie ==> self.cookie_refreshes < MAX_COOKIE_REFRESHES,
            r is Requeue ==> retries < MAX_REQUEUES,
    {
        match body_check(bytes, expected) {
            BodyCheck::ChallengePage => {
                if self.cookie_refreshes < MAX_COOKIE_REFRESHES {
                    FileStep::RefreshCookie
                } else if retries < MAX_REQUEUES {
                    FileStep::Requeue
                } else {
                    FileStep::FinishChallengeFailure
                }
            },
            BodyCheck::Incomplete => {
                if self.attempts < self.policy.max_attempts {
                    FileStep::RetryAfter { backoff_ms: self.backoff() }
                } else {
                    FileStep::FinishIncomplete
                }
            },
            BodyCheck::Complete => FileStep::FinishComplete,
        }
    }

    /// The step after a download that failed.
    pub fn after_error(&self, failure: DownloadFailure) -> (r: FileStep)
        ensures
            r == step_after_failure(*self, failure),
            r is RetryAfter ==> self.attempts < self.policy.max_attempts,
            failure is Canceled ==> r is FinishCanceled,
            (failure is Transport || (failure matches DownloadFailure::Status(code) && (code == 408
                || code == 429 || code >= 500))) && self.attempts < self.policy.max_attempts ==> r
                == (FileStep::RetryAfter { backoff_ms: attempt_backoff(*self) }),
            (failure matches DownloadFailure::Status(code) && !(code == 408 || code == 429 || code
                >= 500)) ==> r is FinishError,
    {
        match failure {
            DownloadFailure::Canceled => FileStep::FinishCanceled,
            DownloadFailure::Status(code) => {
                if !(code == 408 || code == 429 || code >= 500) {
                    FileStep::FinishError
                } else if self.attempts < self.policy.max_attempts {
                    FileStep::RetryAfter { backoff_ms: self.backoff() }
                } else {
                    FileStep::FinishError
                }
            },
            DownloadFailure::Transport => {
                if self.attempts < self.policy.max_attempts {
                    FileStep::RetryAfter { backoff_ms: self.backoff() }
                } else {
                    FileStep::FinishError
                }
            },
        }
    }

    /// Counts one more refresh of the cookie, solved or failed; a solved one also
    /// gives back attempts, leaving at most three fewer than the limit used.
    pub fn after_refresh(&mut self, outcome: RefreshOutcome)
        requires
            old(self).cookie_refreshes < MAX_COOKIE_REFRESHES,
        ensures
            *final(self) == refreshed(*old(self), outcome),
    {
        match outcome {
            RefreshOutcome::AlreadyRefreshed => {},
            RefreshOutcome::Failed => {
                self.cookie_refreshes = self.cookie_refreshes + 1;
            },
            RefreshOutcome::Solved => {
                self.cookie_refreshes = self.cookie_refreshes + 1;
                let keep: u32 = if self.policy.max_attempts >= 3 { self.policy.max_attempts - 3 } else { 0 };
                if self.attempts > keep {
                    self.attempts = keep;
                }
            },
        }
    }
}

/// The counters after a refresh of the cookie that ended with `outcome`: one
/// that another task made changes nothing; one made here counts, and a solved
/// one leaves at most three fewer attempts used than the limit.
pub open spec fn refreshed(a: FileAttempt, outcome: RefreshOutcome) -> FileAttempt {
    match outcome {
        RefreshOutcome::AlreadyRefreshed => a,
        RefreshOutcome::Failed => FileAttempt { cookie_refreshes: (a.cookie_refreshes + 1) as u32, ..a },
        RefreshOutcome::Solved => FileAttempt {
            attempts: if a.attempts > restored_attempts(a.policy.max_attempts) {
                restored_attempts(a.policy.max_attempts)
            } else {
                a.attempts
            },
            cookie_refreshes: (a.cookie_refreshes + 1) as u32,
            ..a
        },
    }
}

/// The counters after `begin_attempt`.
pub open spec fn begun(a: FileAttempt) -> FileAttempt {
    FileAttempt { attempts: (a.attempts + 1) as u32, ..a }
}

/// Counters that no step of a file's task goes beyond: at most three refreshes
/// of the cookie, and no more attempts than the limit plus one, plus one for
/// each refresh (a refresh that fails lets the task download once more).
pub open spec fn within_limits(a: FileAttempt) -> bool {
    &&& a.cookie_refreshes <= MAX_COOKIE_REFRESHES
    &&& a.attempts <= a.policy.max_attempts + 1 + a.cookie_refreshes
}

/// What is left of a file task's budget: every cookie refresh left is worth
/// more than all the attempts that a solved refresh can give back.
pub open spec fn attempt_budget(a: FileAttempt) -> int {
    let m = a.policy.max_attempts as int;
    let used: int = if a.attempts < a.policy.max_attempts { a.attempts as int } else { m };
    (MAX_COOKIE_REFRESHES - a.cookie_refreshes) * (m + 1) + (m - used)
}

/// A file's download loop ends: from counters within the limits, every pass
/// that downloads again (a pause after a short body or a retryable failure, or a
/// renewal of the cookie that the file's own task tried, solved or failed) leaves
/// the counters within the limits and the budget smaller and not negative. A
/// fresh task with an attempt limit of `m` starts with a budget of `4m + 3`, so
/// it downloads at most `4m + 4` times unless another task keeps refreshing the
/// cookie.
pub proof fn lemma_file_loop_terminates(
    a: FileAttempt,
    bytes: u64,
    expected: u64,
    retries: u32,
    failure: DownloadFailure,
    outcome: RefreshOutcome,
)
    requires
        within_limits(a),
        a.attempts < u32::MAX,
    ensures
        within_limits(FileAttempt { attempts: 0, cookie_refreshes: 0, policy: a.policy }),
        attempt_budget(FileAttempt { attempts: 0, cookie_refreshes: 0, policy: a.policy }) == 4
            * a.policy.max_attempts + 3,
        attempt_budget(a) >= 0,
        step_after_body(begun(a), bytes, expected, retries) is RetryAfter ==> within_limits(
            begun(a),
        ) && 0 <= attempt_budget(begun(a)) < attempt_budget(a),
        step_after_failure(begun(a), failure) is RetryAfter ==> within_limits(begun(a)) && 0
            <= attempt_budget(begun(a)) < attempt_budget(a),
        step_after_body(begun(a), bytes, expected, retries) is RefreshCookie && !(
        outcome is AlreadyRefreshed) ==> within_limits(refreshed(begun(a), outcome)) && 0
            <= attempt_budget(refreshed(begun(a), outcome)) < attempt_budget(a),
{
    let m = a.policy.max_attempts as int;
    assert(attempt_budget(a) >= 0) by (nonlinear_arith)
        requires
            a.cookie_refreshes <= 3,
            m >= 0,
            attempt_budget(a) == (3 - a.cookie_refreshes) * (m + 1) + (m - (if a.attempts
                < a.policy.max_attempts { a.attempts as int } else { m })),
    ;
    let b = begun(a);
    assert(attempt_budget(FileAttempt { attempts: 0, cookie_refreshes: 0, policy: a.policy }) == 4
        * m + 3) by (nonlinear_arith)
        requires
            m >= 0,
            attempt_budget(FileAttempt { attempts: 0, cookie_refreshes: 0, policy: a.policy }) == 3
                * (m + 1) + (m - (if 0 < a.policy.max_attempts { 0 } else { m })),
    ;
    if !(outcome is AlreadyRefreshed) {
        let c = refreshed(b, outcome);
        if b.cookie_refreshes < MAX_COOKIE_REFRESHES {
            let r = a.cookie_refreshes as int;
            assert((3 - r) * (m + 1) == (3 - (r + 1)) * (m + 1) + (m + 1)) by (nonlinear_arith);
            assert(attempt_budget(c) >= 0) by (nonlinear_arith)
                requires
                    c.cookie_refreshes <= 3,
                    m >= 0,
                    attempt_budget(c) == (3 - c.cookie_refreshes) * (m + 1) + (m - (if c.attempts
                        < c.policy.max_attempts { c.attempts as int } else { m })),
            ;
        }
    }
}

/// How a failed attempt is handled, by the failure: a cancelled run ends the
/// task; a transport failure, a request timeout (408), too many requests (429)
/// or any server error (500 and above) is retried after the back-off while
/// attempts remain and fails the file after the last one; any other status
/// (4xx above all) fails the file at once.
pub proof fn lemma_failure_handling(a: FileAttempt, code: u16)
    ensures
        step_after_failure(a, DownloadFailure::Canceled) == FileStep::FinishCanceled,
        a.attempts < a.policy.max_attempts ==> step_after_failure(a, DownloadFailure::Transport)
            == (FileStep::RetryAfter { backoff_ms: attempt_backoff(a) }),
        a.attempts >= a.policy.max_attempts ==> step_after_failure(a, DownloadFailure::Transport)
            == FileStep::FinishError,
        (code == 408 || code == 429 || code >= 500) && a.attempts < a.policy.max_attempts
            ==> step_after_failure(a, DownloadFailure::Status(code)) == (FileStep::RetryAfter {
            backoff_ms: attempt_backoff(a),
        }),
        (code == 408 || code == 429 || code >= 500) && a.attempts >= a.policy.max_attempts
            ==> step_after_failure(a, DownloadFailure::Status(code)) == FileStep::FinishError,
        !(code == 408 || code == 429 || code >= 500) ==> step_after_failure(
            a,
            DownloadFailure::Status(code),
        ) == FileStep::FinishError,
{
}

/// The back-off doubles from one failed attempt to the next, starting at the
/// base, until it reaches the maximum, and never passes it.
pub proof fn lemma_backoff_doubles(base: u64, max: u64, attempts: nat)
    ensures
        retry_backoff_spec(base as nat, max as nat, 1) == (if base <= max { base as nat } else {
            max as nat
        }),
        attempts >= 1 ==> retry_backoff_spec(base as nat, max as nat, attempts + 1) == (if 2
            * retry_backoff_spec(base as nat, max as nat, attempts) <= max {
            2 * retry_backoff_spec(base as nat, max as nat, attempts)
        } else {
            max as nat
        }),
        retry_backoff_spec(base as nat, max as nat, attempts) <= max,
{
    assert(pow2(0) == 1);
    assert((base as nat) * 1 == base as nat);
    if attempts >= 1 {
        let k = (attempts - 1) as nat;
        lemma_capped_step(base as nat, max as nat, k);
        assert(capped_double(base as nat, max as nat, k) == retry_backoff_spec(base as nat, max as nat, attempts));
        assert(capped_double(base as nat, max as nat, k + 1) == retry_backoff_spec(base as nat, max as nat, attempts + 1));
    }
}

/// A file's task never waits to retry more often than the attempt limit allows,
/// and never refreshes the cookie more than the refresh limit allows.
pub proof fn lemma_file_steps_bounded(
    a: FileAttempt,
    bytes: u64,
    expected: u64,
    retries: u32,
    failure: DownloadFailure,
)
    ensures
        step_after_body(a, bytes, expected, retries) is RetryAfter ==> a.attempts
            < a.policy.max_attempts,
        step_after_failure(a, failure) is RetryAfter ==> a.attempts < a.policy.max_attempts,
        step_after_body(a, bytes, expected, retries) is RefreshCookie ==> a.cookie_refreshes
            < MAX_COOKIE_REFRESHES,
        step_after_body(a, bytes, expected, retries) is Requeue ==> retries < MAX_REQUEUES,
        failure is Canceled ==> step_after_failure(a, failure) is FinishCanceled,
        (failure matches DownloadFailure::Status(c) && !is_retryable_status(c)) ==> step_after_failure(
            a,
            failure,
        ) is FinishError,
{
}

/// What a download returned.
#[derive(Clone, Debug)]
pub struct DownloadOutcome {
    /// Bytes read.
    pub bytes: u64,
    /// HTTP status.
    pub status: u16,
    /// The URL the body finally came from.
    pub final_url: Option<String>,
    /// The announced length.
    pub content_length: Option<u64>,
    /// The response headers.
    pub headers: Vec<HeaderKV>,
}

/// A copy of a list of headers.
pub fn clone_headers(v: &Vec<HeaderKV>) -> (r: Vec<HeaderKV>)
    ensures
        r@ == v@,
{
    let mut out: Vec<HeaderKV> = Vec::new();
    let n = v.len();
    for i in 0..n
        invariant
            n == v@.len(),
            out@ == v@.take(i as int),
    {
        out.push(HeaderKV { name: v[i].name.clone(), value: v[i].value.clone() });
        assert(v@.take(i + 1) =~= v@.take(i as int).push(v@[i as int]));
    }
    assert(v@.take(n as int) =~= v@);
    out
}

fn clone_opt(o: &Option<String>) -> (r: Option<String>)
    ensures
        r == *o,
{
    match o {
        Some(s) => Some(s.clone()),
        None => None,
    }
}

/// Whether `h` is the host of `url` as the URL parser reads it.
pub open spec fn host_named(h: Option<String>, url: Seq<char>) -> bool {
    match h {
        Some(x) => url_host(url) == Some(x@),
        None => url_host(url) is None,
    }
}

/// Whether `w` is the warning for a body requested at `url` that finally came
/// from `final_url`: a `REDIRECT` warning naming both URLs and the final host
/// when they differ, else none.
pub open spec fn is_redirect_warning(w: Option<WarningItem>, url: String, final_url: Option<String>) -> bool {
    match final_url {
        Some(f) => if f@ != url@ {
            &&& w matches Some(wi)
            &&& wi.code@ == "REDIRECT"@
            &&& wi.message@ == "Redirect detected"@
            &&& wi.context matches Some(c)
            &&& c.original == url
            &&& c.final_url == f
            &&& host_named(c.final_host, f@)
        } else {
            w is None
        },
        None => w is None,
    }
}

/// The fields shared by every update about one file of a run.
#[derive(Clone, Debug)]
pub struct UpdateContext {
    pub run_id: String,
    pub site_id: String,
    pub path: String,
    /// The download URL of the file.
    pub url: String,
}

/// The message of a firewall page that made the task refresh the cookie.
pub open spec fn refreshing_message() -> Seq<char> {
    "Auth failure, refreshing cookie..."@
}

/// The message of a file sent back to the queue after its `retries`-th firewall
/// page run.
pub open spec fn requeue_message(retries: u32) -> Seq<char> {
    "WAF detected, re-queuing (Retry "@ + decimal(retries as nat + 1) + "/3)..."@
}

/// The message of a file that kept getting the firewall page.
pub open spec fn challenge_failure_message() -> Seq<char> {
    "Auth failure (4.22KB)"@
}

/// The message of a download whose body is under 95% of the file's size.
pub open spec fn incomplete_cdn_message(expected: u64, bytes: u64) -> Seq<char> {
    "CDN缓存不完整 (预期 "@ + decimal(expected as nat) + ", 实际 "@ + decimal(bytes as nat)
        + ")，请联系网站维护者清除缓存"@
}

impl UpdateContext {
    /// The update sent when the file's task starts.
    pub fn started(&self) -> (r: FileUpdate)
        ensures
            r == (FileUpdate {
                run_id: self.run_id,
                site_id: self.site_id,
                path: self.path,
                status: FileStatus::Running,
                attempt: Some(1u32),
                url: Some(self.url),
                final_url: None,
                content_length: None,
                response_headers: None,
                bytes_read: 0,
                http_status: None,
                duration_ms: None,
                warning: None,
                error: None,
            }),
    {
        FileUpdate {
            run_id: self.run_id.clone(),
            site_id: self.site_id.clone(),
            path: self.path.clone(),
            status: FileStatus::Running,
            attempt: Some(1),
            url: Some(self.url.clone()),
            final_url: None,
            content_length: None,
            response_headers: None,
            bytes_read: 0,
            http_status: None,
            duration_ms: None,
            warning: None,
            error: None,
        }
    }

    /// The progress update sent while a body is being read.
    pub fn progress(&self, bytes_read: u64, status: u16) -> (r: FileUpdate)
        ensures
            r == (FileUpdate {
                run_id: self.run_id,
                site_id: self.site_id,
                path: self.path,
                status: FileStatus::Running,
                attempt: Some(1u32),
                url: Some(self.url),
                final_url: None,
                content_length: None,
                response_headers: None,
                bytes_read: bytes_read,
                http_status: Some(status),
                duration_ms: None,
                warning: None,
                error: None,
            }),
    {
        FileUpdate {
            run_id: self.run_id.clone(),
            site_id: self.site_id.clone(),
            path: self.path.clone(),
            status: FileStatus::Running,
            attempt: Some(1),
            url: Some(self.url.clone()),
            final_url: None,
            content_length: None,
            response_headers: None,
            bytes_read,
            http_status: Some(status),
            duration_ms: None,
            warning: None,
            error: None,
        }
    }

    /// The update sent when a firewall page makes the task refresh the cookie.
    pub fn refreshing(&self, attempts: u32, o: &DownloadOutcome) -> (r: FileUpdate)
        ensures
            r.run_id == self.run_id && r.site_id == self.site_id && r.path == self.path,
            r.status == FileStatus::Running,
            r.attempt == Some(attempts),
            r.url == Some(self.url),
            r.final_url == o.final_url,
            r.content_length == o.content_length,
            r.response_headers matches Some(h) && h@ == o.headers@,
            r.bytes_read == o.bytes,
            r.http_status == Some(o.status),
            r.duration_ms is None,
            r.warning is None,
            r.error matches Some(e) && e@ == refreshing_message(),
    {
        FileUpdate {
            run_id: self.run_id.clone(),
            site_id: self.site_id.clone(),
            path: self.path.clone(),
            status: FileStatus::Running,
            attempt: Some(attempts),
            url: Some(self.url.clone()),
            final_url: clone_opt(&o.final_url),
            content_length: o.content_length,
            response_headers: Some(clone_headers(&o.headers)),
            bytes_read: o.bytes,
            http_status: Some(o.status),
            duration_ms: None,
            warning: None,
            error: Some("Auth failure, refreshing cookie...".to_string()),
        }
    }

    /// The update sent when the file goes back to the queue after firewall
    /// pages (`retries` is its count before this requeue).
    pub fn requeued(&self, attempts: u32, o: &DownloadOutcome, retries: u32) -> (r: FileUpdate)
        requires
            retries < MAX_REQUEUES,
        ensures
            r.run_id == self.run_id && r.site_id == self.site_id && r.path == self.path,
            r.status == FileStatus::Queued,
            r.attempt == Some(attempts),
            r.url == Some(self.url),
            r.final_url == o.final_url,
            r.content_length == o.content_length,
            r.response_headers matches Some(h) && h@ == o.headers@,
            r.bytes_read == o.bytes,
            r.http_status == Some(o.status),
            r.duration_ms is None,
            r.warning is None,
            r.error matches Some(e) && e@ == requeue_message(retries),
    {
        let mut msg = "WAF detected, re-queuing (Retry ".to_string();
        push_decimal(&mut msg, (retries + 1) as u64);
        push_all(&mut msg, "/3)...");
        FileUpdate {
            run_id: self.run_id.clone(),
            site_id: self.site_id.clone(),
            path: self.path.clone(),
            status: FileStatus::Queued,
            attempt: Some(attempts),
            url: Some(self.url.clone()),
            final_url: clone_opt(&o.final_url),
            content_length: o.content_length,
            response_headers: Some(clone_headers(&o.headers)),
            bytes_read: o.bytes,
            http_status: Some(o.status),
            duration_ms: None,
            warning: None,
            error: Some(msg),
        }
    }

    /// The final update of a download that returned a body of a file of
    /// `expected` bytes, classified as `after_body` does. The firewall page
    /// fails the file, reporting the response; an incomplete copy fails it as
    /// an error does (`failed`, with the incomplete-copy message); a complete
    /// body is done, with a redirect warning (when `warn_on_redirect` is on) if
    /// it came from another URL.
    pub fn finished(
        &self,
        attempts: u32,
        o: &DownloadOutcome,
        expected: u64,
        warn_on_redirect: bool,
        duration_ms: u64,
    ) -> (r: FileUpdate)
        ensures
            r.run_id == self.run_id && r.site_id == self.site_id && r.path == self.path,
            r.attempt == Some(attempts),
            r.url == Some(self.url),
            r.duration_ms == Some(duration_ms),
            !(body_check_spec(o.bytes, expected) is Incomplete) ==> {
                &&& r.final_url == o.final_url
                &&& r.content_length == o.content_length
                &&& r.response_headers matches Some(h) && h@ == o.headers@
                &&& r.bytes_read == o.bytes
                &&& r.http_status == Some(o.status)
            },
            body_check_spec(o.bytes, expected) is ChallengePage ==> {
                &&& r.status == FileStatus::Failed
                &&& r.warning is None
                &&& r.error matches Some(e) && e@ == challenge_failure_message()
            },
            body_check_spec(o.bytes, expected) is Incomplete ==> {
                &&& r.status == FileStatus::Failed
                &&& r.final_url is None
                &&& r.content_length is None
                &&& r.response_headers is None
                &&& r.bytes_read == 0
                &&& r.http_status is None
                &&& r.warning is None
                &&& r.error matches Some(e) && e@ == incomplete_cdn_message(expected, o.bytes)
            },
            body_check_spec(o.bytes, expected) is Complete ==> {
                &&& r.status == FileStatus::Done
                &&& (warn_on_redirect ==> is_redirect_warning(r.warning, self.url, o.final_url))
                &&& (!warn_on_redirect ==> r.warning is None)
                &&& r.error is None
            },
    {
        let check = body_check(o.bytes, expected);
        let complete = match check {
            BodyCheck::Complete => true,
            BodyCheck::ChallengePage => false,
            BodyCheck::Incomplete => {
                return self.failed(attempts, &incomplete_cdn_error(expected, o.bytes), duration_ms);
            },
        };
        let warning = if !complete || !warn_on_redirect {
            None
        } else {
            match &o.final_url {
                Some(f) => {
                    if *f != self.url {
                        Some(
                            WarningItem {
                                code: "REDIRECT".to_string(),
                                message: "Redirect detected".to_string(),
                                context: Some(
                                    RedirectContext {
                                        original: self.url.clone(),
                                        final_url: f.clone(),
                                        final_host: host_of_url(f.as_str()),
                                    },
                                ),
                            },
                        )
                    } else {
                        None
                    }
                },
                None => None,
            }
        };
        FileUpdate {
            run_id: self.run_id.clone(),
            site_id: self.site_id.clone(),
            path: self.path.clone(),
            status: if complete { FileStatus::Done } else { FileStatus::Failed },
            attempt: Some(attempts),
            url: Some(self.url.clone()),
            final_url: clone_opt(&o.final_url),
            content_length: o.content_length,
            response_headers: Some(clone_headers(&o.headers)),
            bytes_read: o.bytes,
            http_status: Some(o.status),
            duration_ms: Some(duration_ms),
            warning,
            error: if complete { None } else { Some("Auth failure (4.22KB)".to_string()) },
        }
    }

    /// The final update of a file whose download was stopped because the run
    /// was cancelled.
    pub fn canceled(&self, attempts: u32, duration_ms: u64) -> (r: FileUpdate)
        ensures
            r == (FileUpdate {
                run_id: self.run_id,
                site_id: self.site_id,
                path: self.path,
                status: FileStatus::Canceled,
                attempt: Some(attempts),
                url: Some(self.url),
                final_url: None,
                content_length: None,
                response_headers: None,
                bytes_read: 0,
                http_status: None,
                duration_ms: Some(duration_ms),
                warning: None,
                error: r.error,
            }),
            r.error matches Some(e) && e@ == "Cancelled"@,
    {
        FileUpdate {
            run_id: self.run_id.clone(),
            site_id: self.site_id.clone(),
            path: self.path.clone(),
            status: FileStatus::Canceled,
            attempt: Some(attempts),
            url: Some(self.url.clone()),
            final_url: None,
            content_length: None,
            response_headers: None,
            bytes_read: 0,
            http_status: None,
            duration_ms: Some(duration_ms),
            warning: None,
            error: Some("Cancelled".to_string()),
        }
    }

    /// The final update of a file that failed with `error`.
    pub fn failed(&self, attempts: u32, error: &AppError, duration_ms: u64) -> (r: FileUpdate)
        ensures
            r.run_id == self.run_id && r.site_id == self.site_id && r.path == self.path,
            r.status == FileStatus::Failed,
            r.attempt == Some(attempts),
            r.url == Some(self.url),
            r.final_url is None,
            r.content_length is None,
            r.response_headers is None,
            r.bytes_read == 0,
            r.http_status is None,
            r.duration_ms == Some(duration_ms),
            r.warning is None,
            r.error matches Some(e) && e@ == error.message_view(),
    {
        FileUpdate {
            run_id: self.run_id.clone(),
            site_id: self.site_id.clone(),
            path: self.path.clone(),
            status: FileStatus::Failed,
            attempt: Some(attempts),
            url: Some(self.url.clone()),
            final_url: None,
            content_length: None,
            response_headers: None,
            bytes_read: 0,
            http_status: None,
            duration_ms: Some(duration_ms),
            warning: None,
            error: Some(error.message()),
        }
    }
}

fn incomplete_cdn_text(expected: u64, bytes: u64) -> (m: String)
    ensures
        m@ == incomplete_cdn_message(expected, bytes),
{
    let mut m = "CDN缓存不完整 (预期 ".to_string();
    push_decimal(&mut m, expected);
    push_all(&mut m, ", 实际 ");
    push_decimal(&mut m, bytes);
    push_all(&mut m, ")，请联系网站维护者清除缓存");
    m
}

/// The error of a body under 95% of the file's size after the last attempt.
pub fn incomplete_cdn_error(expected: u64, bytes: u64) -> (r: AppError)
    ensures
        r matches AppError::Api(m) && m@ == incomplete_cdn_message(expected, bytes),
{
    AppError::Api(incomplete_cdn_text(expected, bytes))
}

/// Milliseconds between two progress updates of a download.
pub const PROGRESS_INTERVAL_MS: u64 = 200;

/// The running count of a download's body.
#[derive(Clone, Copy, Debug, PartialEq, Eq, Structural)]
pub struct DownloadProgress {
    /// Bytes read so far.
    pub total: u64,
    /// Clock reading (milliseconds) of the last progress update, or of the start.
    pub last_emit_ms: u64,
    /// In partial mode, the bytes after which reading stops.
    pub limit: Option<u64>,
}

/// Whether a partial read has read enough.
pub open spec fn limit_reached_spec(p: DownloadProgress) -> bool {
    p.limit matches Some(k) && p.total >= k
}

/// The message of a download whose body length differs from the announced one.
pub open spec fn incomplete_download_message(expected: u64, got: u64) -> Seq<char> {
    "Incomplete download: expected "@ + decimal(expected as nat) + " bytes, got "@ + decimal(
        got as nat,
    )
}

/// The message of a download answered with a non-success status.
pub open spec fn download_status_message(code: u16) -> Seq<char> {
    "HTTP "@ + status_text(code)
}

impl DownloadProgress {
    /// A download started at clock reading `now_ms`, reading the whole body,
    /// or (in partial mode) at most `limit` bytes plus the chunk that reaches it.
    pub fn start(now_ms: u64, limit: Option<u64>) -> (r: Self)
        ensures
            r.total == 0 && r.last_emit_ms == now_ms && r.limit == limit,
    {
        DownloadProgress { total: 0, last_emit_ms: now_ms, limit }
    }

    /// Whether reading stops now: a partial read has reached its limit.
    pub fn limit_reached(&self) -> (r: bool)
        ensures
            r == limit_reached_spec(*self),
    {
        match self.limit {
            Some(k) => self.total >= k,
            None => false,
        }
    }

    /// Counts a chunk of `len` bytes read at `now_ms`; returns whether a progress
    /// update is due (at least 200 ms since the last one), and then restarts the
    /// interval.
    pub fn record_chunk(&mut self, len: u64, now_ms: u64) -> (emit: bool)
        requires
            old(self).total + len <= u64::MAX,
        ensures
            final(self).total == old(self).total + len,
            final(self).limit == old(self).limit,
            emit == (now_ms >= old(self).last_emit_ms && now_ms - old(self).last_emit_ms
                >= PROGRESS_INTERVAL_MS),
            emit ==> final(self).last_emit_ms == now_ms,
            !emit ==> final(self).last_emit_ms == old(self).last_emit_ms,
    {
        self.total = self.total + len;
        if now_ms >= self.last_emit_ms && now_ms - self.last_emit_ms >= PROGRESS_INTERVAL_MS {
            self.last_emit_ms = now_ms;
            true
        } else {
            false
        }
    }

    /// The body's length once reading stopped: an error when the whole body
    /// was read, a length was announced, and the two differ. A partial read
    /// that reached its limit is not checked against the announced length.
    pub fn finish(&self, content_length: Option<u64>) -> (r: Result<u64, AppError>)
        ensures
            (!limit_reached_spec(*self) && content_length is Some && content_length->0 != self.total)
                ==> (r matches Err(AppError::Api(m)) && m@ == incomplete_download_message(
                content_length->0,
                self.total,
            )),
            !(!limit_reached_spec(*self) && content_length is Some && content_length->0
                != self.total) ==> r == Ok::<u64, AppError>(self.total),
    {
        if self.limit_reached() {
            return Ok(self.total);
        }
        if let Some(len) = content_length {
            if len != self.total {
                let mut m = "Incomplete download: expected ".to_string();
                push_decimal(&mut m, len);
                push_all(&mut m, " bytes, got ");
                push_decimal(&mut m, self.total);
                return Err(AppError::Api(m));
            }
        }
        Ok(self.total)
    }
}

/// The error of a download answered with status `code`: none for 2xx, else
/// `HTTP {status}`.
pub fn download_status_error(code: u16) -> (r: Option<AppError>)
    requires
        100 <= code <= 999,
    ensures
        is_success(code) <==> r is None,
        r matches Some(e) ==> (e matches AppError::Api(m) && m@ == download_status_message(code)),
{
    if 200 <= code && code <= 299 {
        None
    } else {
        let mut m = "HTTP ".to_string();
        let s = crate::api::status_display(code);
        push_all(&mut m, s.as_str());
        Some(AppError::Api(m))
    }
}

/// The error of a download stopped because the run was cancelled.
pub fn cancelled_error() -> (r: AppError)
    ensures
        r matches AppError::Api(m) && m@ == "Cancelled"@,
{
    AppError::Api("Cancelled".to_string())
}

/// How the download client of a site is set up: a `Referer` of the API base
/// URL when that is a valid header value, the redirect policy, and the user
/// agent and proxy when set and not empty.
#[derive(Clone, Debug)]
pub struct DownloadClientPlan {
    pub referer: Option<String>,
    pub follow_redirects: bool,
    pub user_agent: Option<String>,
    pub proxy_url: Option<String>,
}

/// Plans the download client of a site. A non-empty proxy URL that reqwest
/// does not accept fails the run.
pub fn download_client_plan(settings: &SiteSettings) -> (r: Result<DownloadClientPlan, AppError>)
    ensures
        (non_empty(settings.proxy_url) matches Some(p) && !proxy_url_accepted(p@)) <==> r is Err,
        r matches Err(e) ==> e is Network,
        r matches Ok(plan) ==> {
            &&& (header_value_ok(settings.api_base_url@) ==> plan.referer == Some(settings.api_base_url))
            &&& (!header_value_ok(settings.api_base_url@) ==> plan.referer is None)
            &&& plan.follow_redirects == (match settings.follow_redirects { Some(b) => b, None => true })
            &&& plan.user_agent == non_empty(settings.user_agent)
            &&& plan.proxy_url == non_empty(settings.proxy_url)
        },
{
    let referer = if header_value_accepted(settings.api_base_url.as_str()) {
        Some(settings.api_base_url.clone())
    } else {
        None
    };
    let follow_redirects = match settings.follow_redirects {
        Some(b) => b,
        None => true,
    };
    let user_agent = match &settings.user_agent {
        Some(u) => if !u.as_str().is_empty() { Some(u.clone()) } else { None },
        None => None,
    };
    let proxy_url = match &settings.proxy_url {
        Some(p) => if !p.as_str().is_empty() { Some(p.clone()) } else { None },
        None => None,
    };
    if let Some(p) = &proxy_url {
        if let Err(e) = check_proxy_url(p.as_str()) {
            return Err(AppError::Network(e));
        }
    }
    Ok(DownloadClientPlan { referer, follow_redirects, user_agent, proxy_url })
}

/// Concurrency and bandwidth of a run.
#[derive(Clone, Copy, Debug, PartialEq, Eq, Structural)]
pub struct RunLimits {
    /// Hard limit on simultaneous downloads.
    pub max_conn: usize,
    /// Downloads allowed at first by the adaptive controller (2 unless set).
    pub initial_concurrency: usize,
    /// Bandwidth limit in bytes per second; 0 means none.
    pub rate_limit: u64,
    /// Whether a download whose body came from another URL gets a redirect
    /// warning (on unless set).
    pub warn_on_redirect: bool,
    /// In partial mode, the bytes read of each file; none for full reads.
    pub partial_max_bytes: Option<u64>,
}

/// The bytes read of each file that partial-mode settings give: the limit when
/// partial mode is on with a positive limit, else none (the whole body).
pub open spec fn partial_limit_of(mode: Option<PartialModeConfig>) -> Option<u64> {
    match mode {
        Some(m) => match m.max_bytes {
            Some(k) => if m.enabled && k > 0 { Some(k) } else { None },
            None => None,
        },
        None => None,
    }
}

/// The body size a download is held to: the file's size, or in partial mode
/// the smaller of that and the limit.
pub open spec fn expected_body_spec(size: u64, limit: Option<u64>) -> u64 {
    match limit {
        Some(k) => if k < size { k } else { size },
        None => size,
    }
}

/// A partial read that got the limit's worth of bytes (or the whole file) is
/// complete: it never fails as an incomplete copy for being shorter than the
/// file.
pub proof fn lemma_partial_read_complete(size: u64, k: u64, bytes: u64)
    requires
        bytes >= expected_body_spec(size, Some(k)),
    ensures
        body_check_spec(bytes, expected_body_spec(size, Some(k))) is Complete,
{
    let e = expected_body_spec(size, Some(k));
    assert(share_of(e, 95, 100) <= e as nat) by (nonlinear_arith)
        requires share_of(e, 95, 100) == (e as nat) * 95 / 100;
}

/// The body size against which a download is classified (`body_check`,
/// `after_body`, `finished`): in partial mode a body of the limit's size is
/// complete, so a partial read is never an incomplete copy for being shorter
/// than the file.
pub fn expected_body(size: u64, limit: Option<u64>) -> (r: u64)
    ensures
        r == expected_body_spec(size, limit),
{
    match limit {
        Some(k) => if k < size { k } else { size },
        None => size,
    }
}

/// The limits a run's settings give.
pub fn run_limits(settings: &RunSettings) -> (r: RunLimits)
    ensures
        r.max_conn == settings.max_conn,
        r.initial_concurrency == (match settings.min_conn { Some(m) => m, None => 2u32 }),
        r.rate_limit == (match settings.rate_limit_bytes_per_sec { Some(l) => l, None => 0u64 }),
        r.warn_on_redirect == (match settings.warn_on_redirect { Some(w) => w, None => true }),
        r.partial_max_bytes == partial_limit_of(settings.partial_mode),
{
    let min_conn: u32 = match settings.min_conn {
        Some(m) => m,
        None => 2,
    };
    let rate_limit: u64 = match settings.rate_limit_bytes_per_sec {
        Some(l) => l,
        None => 0,
    };
    RunLimits {
        max_conn: settings.max_conn as usize,
        initial_concurrency: min_conn as usize,
        rate_limit,
        warn_on_redirect: match settings.warn_on_redirect {
            Some(w) => w,
            None => true,
        },
        partial_max_bytes: match settings.partial_mode {
            Some(m) => match m.max_bytes {
                Some(k) => if m.enabled && k > 0 { Some(k) } else { None },
                None => None,
            },
            None => None,
        },
    }
}

/// Milliseconds new downloads pause after a file was sent back for firewall
/// pages.
pub const CHALLENGE_COOLDOWN_MS: u64 = 5000;

/// Whether the cool-down that ends at `until` (if any) still blocks new
/// downloads at `now`.
pub fn cooldown_active(until: Option<u64>, now: u64) -> (r: bool)
    ensures
        r == (until matches Some(t) && t > now),
{
    match until {
        Some(t) => t > now,
        None => false,
    }
}

/// The end of a cool-down started at `now` (saturating).
pub fn cooldown_until(now: u64) -> (r: u64)
    ensures
        r == (if now as nat + CHALLENGE_COOLDOWN_MS as nat <= u64::MAX as nat { (now + CHALLENGE_COOLDOWN_MS) as u64 } else { u64::MAX }),
{
    if now <= u64::MAX - CHALLENGE_COOLDOWN_MS { now + CHALLENGE_COOLDOWN_MS } else { u64::MAX }
}

} // verus!
