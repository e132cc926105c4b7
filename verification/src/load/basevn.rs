//! The Base.vn loader's decisions: configuration checks, the request's URL
//! and authorization, how a response is read, and when a failed batch is
//! sent again.

use vstd::prelude::*;
use vstd::arithmetic::power2::{pow2, lemma_pow2_unfold};
use vstd::bits::lemma_u64_pow2_no_overflow;
use crate::config::target::{AuthType, BaseVnConfig, TargetConfig};
use crate::data::json::{field_of, opt_items, opt_text, opt_u64, json_parse, parse_json};
use crate::data::record::{Value, ValueModel};
use crate::data::text::{append, owned};
use crate::error::types::{ConfigError, LoadError, is_validation, validation};
use crate::http::{status_display, status_text};
use crate::load::traits::{FailureView, LoadResult, LoadResultView, RecordFailure, all_succeeded};

verus! {

/// The status of one entry of a detailed response; `success` when absent.
pub open spec fn item_status(item: ValueModel) -> Seq<char> {
    match opt_text(field_of(item, "status"@)) {
        Some(s) => s,
        None => "success"@,
    }
}

/// The error message of a response entry; `Unknown error` when absent.
pub open spec fn item_error(item: ValueModel) -> Seq<char> {
    match opt_text(field_of(item, "error"@)) {
        Some(s) => s,
        None => "Unknown error"@,
    }
}

/// The identifier of a response entry, when it is a string.
pub open spec fn item_id(item: ValueModel) -> Option<Seq<char>> {
    opt_text(field_of(item, "id"@))
}

/// The record index of an error entry; 0 when absent.
pub open spec fn item_index(item: ValueModel) -> u64 {
    match opt_u64(field_of(item, "index"@)) {
        Some(n) => n,
        None => 0,
    }
}

/// The failures that a detailed response lists: each entry whose status is
/// not `success`, with its position in the list.
pub open spec fn detailed_failures(items: Seq<ValueModel>) -> Seq<FailureView>
    decreases items.len(),
{
    if items.len() == 0 {
        Seq::empty()
    } else {
        let prev = detailed_failures(items.drop_last());
        let item = items.last();
        if item_status(item) == "success"@ {
            prev
        } else {
            prev.push(FailureView { index: items.len() - 1, id: item_id(item), error: item_error(item) })
        }
    }
}

/// The number of entries of a detailed response whose status is `success`.
pub open spec fn detailed_successes(items: Seq<ValueModel>) -> int
    decreases items.len(),
{
    if items.len() == 0 {
        0
    } else {
        detailed_successes(items.drop_last()) + if item_status(items.last()) == "success"@ {
            1int
        } else {
            0int
        }
    }
}

/// Every entry of a detailed response counts once: as a success or as a
/// failure.
pub proof fn lemma_detailed_counts(items: Seq<ValueModel>)
    ensures
        detailed_successes(items) + detailed_failures(items).len() == items.len(),
    decreases items.len(),
{
    if items.len() > 0 {
        lemma_detailed_counts(items.drop_last());
    }
}

/// The failure that an entry of a simple response's error list describes.
pub open spec fn simple_failure(item: ValueModel) -> FailureView {
    FailureView { index: (item_index(item) as usize) as int, id: item_id(item), error: item_error(item) }
}

/// What a response body says about a batch of `total` records: a detailed
/// `results` list, else a simple `errors` list with a `created` count, else
/// (also when the body is not JSON) that every record succeeded.
pub open spec fn response_outcome(text: Seq<char>, total: int) -> LoadResultView {
    json_outcome(json_parse(text), total)
}

/// The counts that a response body's JSON (none when it is not JSON) gives
/// for a batch of `total` records: a detailed `results` list, else a simple
/// `errors` list with a `created` count, else every record succeeded.
pub open spec fn json_outcome(json: Option<ValueModel>, total: int) -> LoadResultView {
    match json {
        None => all_succeeded(total),
        Some(j) => match opt_items(field_of(j, "results"@)) {
            Some(items) => LoadResultView {
                total,
                success: detailed_successes(items),
                failed: detailed_failures(items).len() as int,
                failures: detailed_failures(items),
            },
            None => match opt_items(field_of(j, "errors"@)) {
                Some(errs) => LoadResultView {
                    total,
                    success: (match opt_u64(field_of(j, "created"@)) {
                        Some(n) => n,
                        None => 0u64,
                    } as usize) as int,
                    failed: errs.len() as int,
                    failures: errs.map_values(|e: ValueModel| simple_failure(e)),
                },
                None => all_succeeded(total),
            },
        },
    }
}

/// The error is an authentication error with message `msg`.
pub open spec fn is_auth(e: LoadError, msg: Seq<char>) -> bool {
    e matches LoadError::Auth(m) && m@ == msg
}

/// The error is an API request error with message `msg`.
pub open spec fn is_api_request(e: LoadError, msg: Seq<char>) -> bool {
    e matches LoadError::ApiRequest(m) && m@ == msg
}

/// Whether a failed batch may be sent again: network, rate-limit and API
/// request errors may.
pub open spec fn retryable(e: LoadError) -> bool {
    e is Network || e is RateLimit || e is ApiRequest
}

/// What to do after a failed send.
pub enum RetryStep {
    /// Give up and report the error.
    GiveUp,
    /// Wait `delay_secs` seconds, lower the rate limit to `adjusted_rate`
    /// when there is one, and send again.
    Retry { delay_secs: u64, adjusted_rate: Option<usize> },
}

/// The rate limit after a rate-limit error: three quarters of the current
/// rate, rounded down, and at least 1.
pub open spec fn reduced_rate_spec(rate: int) -> int {
    let r = (rate * 3) / 4;
    if r < 1 {
        1
    } else {
        r
    }
}

/// The rate limit after a rate-limit error: three quarters of the current
/// rate, rounded down, and at least 1.
pub fn reduced_rate(rate: usize) -> (r: usize)
    ensures
        r == reduced_rate_spec(rate as int),
{
    let q = rate / 4;
    let m = rate % 4;
    let r = q * 3 + (m * 3) / 4;
    assert(r == (rate * 3) / 4) by (nonlinear_arith)
        requires
            q == rate / 4,
            m == rate % 4,
            r == q * 3 + (m * 3) / 4,
    ;
    if r < 1 {
        1
    } else {
        r
    }
}

/// The wait before the next attempt after `attempt` failed attempts:
/// 1, 2, 4, 8, ... seconds.
pub fn backoff_secs(attempt: usize) -> (d: u64)
    requires
        1 <= attempt <= 64,
    ensures
        d == pow2((attempt - 1) as nat),
{
    let mut d: u64 = 1;
    let mut k: usize = 0;
    proof {
        vstd::arithmetic::power2::lemma2_to64();
    }
    while k < attempt - 1
        invariant
            k <= attempt - 1,
            attempt <= 64,
            d == pow2(k as nat),
        decreases attempt - 1 - k,
    {
        proof {
            lemma_pow2_unfold((k + 1) as nat);
            lemma_u64_pow2_no_overflow((k + 1) as nat);
        }
        d = d * 2;
        k = k + 1;
    }
    d
}

/// What a failed attempt decides: it is counted; retrying stops when the
/// error is not retryable or the attempts are used up; otherwise the wait
/// is 2^(attempt-1) seconds, and after a rate-limit error the rate is
/// lowered (when a rate limiter is in use).
pub open spec fn retry_decision(
    before: RetryState,
    err: LoadError,
    current_rate: usize,
    has_limiter: bool,
    after: RetryState,
    step: RetryStep,
) -> bool {
    &&& after.attempt == before.attempt + 1
    &&& after.max_retries == before.max_retries
    &&& !retryable(err) || after.attempt >= after.max_retries ==> step is GiveUp
    &&& retryable(err) && after.attempt < after.max_retries ==> step == (RetryStep::Retry {
        delay_secs: pow2((after.attempt - 1) as nat) as u64,
        adjusted_rate: if err is RateLimit && has_limiter {
            Some(reduced_rate_spec(current_rate as int) as usize)
        } else {
            None
        },
    })
}

/// The count of failed attempts at sending one batch, and the limit.
pub struct RetryState {
    pub attempt: usize,
    pub max_retries: usize,
}

impl RetryState {
    /// No attempt has failed yet.
    pub fn new(max_retries: usize) -> (s: Self)
        ensures
            s.attempt == 0,
            s.max_retries == max_retries,
    {
        RetryState { attempt: 0, max_retries }
    }

    /// Counts a failed attempt and decides what follows: give up when the
    /// error is not retryable or the attempts are used up; otherwise wait
    /// 2^(attempt-1) seconds, and after a rate-limit error lower the rate
    /// (when a rate limiter is in use).
    pub fn on_failure(&mut self, err: &LoadError, current_rate: usize, has_limiter: bool) -> (step: RetryStep)
        requires
            old(self).attempt < usize::MAX,
            retryable(*err) && old(self).attempt + 1 < old(self).max_retries ==> old(self).attempt < 64,
        ensures
            retry_decision(*old(self), *err, current_rate, has_limiter, *final(self), step),
    {
        self.attempt = self.attempt + 1;
        let is_retryable = match err {
            LoadError::Network(_) => true,
            LoadError::RateLimit { .. } => true,
            LoadError::ApiRequest(_) => true,
            _ => false,
        };
        if !is_retryable || self.attempt >= self.max_retries {
            return RetryStep::GiveUp;
        }
        let delay_secs = backoff_secs(self.attempt);
        let adjusted_rate = match err {
            LoadError::RateLimit { .. } => if has_limiter {
                Some(reduced_rate(current_rate))
            } else {
                None
            },
            _ => None,
        };
        RetryStep::Retry { delay_secs, adjusted_rate }
    }
}

/// Retrying a batch stops at the first failure that is not retryable or
/// that uses up the attempts: over the failed attempts of one batch from a
/// fresh count, the `i`-th decision (counting from 0) gives up exactly when
/// its error is not retryable or `i + 1` reaches the limit, and a retry
/// waits 2^i seconds. So a batch is sent at most `max(max_retries, 1)`
/// times.
pub proof fn lemma_retry_stops_at_first_final_failure(
    states: Seq<RetryState>,
    errs: Seq<LoadError>,
    rates: Seq<usize>,
    limiter: bool,
    steps: Seq<RetryStep>,
)
    requires
        states.len() == errs.len() + 1,
        rates.len() == errs.len(),
        steps.len() == errs.len(),
        states[0].attempt == 0,
        forall|i: int|
            0 <= i < errs.len() ==> #[trigger] retry_decision(states[i], errs[i], rates[i], limiter, states[i + 1], steps[i]),
    ensures
        forall|i: int|
            0 <= i < errs.len() ==> ((#[trigger] steps[i] is GiveUp) <==> (!retryable(errs[i]) || i + 1 >= states[0].max_retries)),
        forall|i: int|
            0 <= i < errs.len() && steps[i] is Retry ==> #[trigger] steps[i]->Retry_delay_secs == pow2(i as nat) as u64,
        forall|i: int| 0 <= i < errs.len() && steps[i] is Retry ==> i + 1 < states[0].max_retries,
{
    assert forall|i: int| 0 <= i <= errs.len() implies #[trigger] states[i].attempt == i && states[i].max_retries
        == states[0].max_retries by {
        lemma_retry_count(states, errs, rates, limiter, steps, i);
    }
    assert forall|i: int| 0 <= i < errs.len() implies ((#[trigger] steps[i] is GiveUp) <==> (!retryable(errs[i]) || i + 1
        >= states[0].max_retries)) by {
        assert(retry_decision(states[i], errs[i], rates[i], limiter, states[i + 1], steps[i]));
        assert(states[i].attempt == i && states[i + 1].attempt == i + 1);
    }
    assert forall|i: int| 0 <= i < errs.len() && steps[i] is Retry implies #[trigger] steps[i]->Retry_delay_secs == pow2(
        i as nat,
    ) as u64 by {
        assert(retry_decision(states[i], errs[i], rates[i], limiter, states[i + 1], steps[i]));
        assert(states[i].attempt == i && states[i + 1].attempt == i + 1);
    }
    assert forall|i: int| 0 <= i < errs.len() && steps[i] is Retry implies i + 1 < states[0].max_retries by {
        assert(retry_decision(states[i], errs[i], rates[i], limiter, states[i + 1], steps[i]));
        assert(states[i].attempt == i && states[i + 1].attempt == i + 1);
    }
}

proof fn lemma_retry_count(
    states: Seq<RetryState>,
    errs: Seq<LoadError>,
    rates: Seq<usize>,
    limiter: bool,
    steps: Seq<RetryStep>,
    i: int,
)
    requires
        states.len() == errs.len() + 1,
        rates.len() == errs.len(),
        steps.len() == errs.len(),
        states[0].attempt == 0,
        forall|k: int|
            0 <= k < errs.len() ==> #[trigger] retry_decision(states[k], errs[k], rates[k], limiter, states[k + 1], steps[k]),
        0 <= i <= errs.len(),
    ensures
        states[i].attempt == i,
        states[i].max_retries == states[0].max_retries,
    decreases i,
{
    if i > 0 {
        let k = i - 1;
        lemma_retry_count(states, errs, rates, limiter, steps, k);
        assert(retry_decision(states[k], errs[k], rates[k], limiter, states[k + 1], steps[k]));
        assert(k + 1 == i);
    }
}

/// Which failures are sent again: when a failed attempt still leaves
/// attempts, a network, rate-limit or API-request error is retried after
/// 2^(earlier failed attempts) seconds (1 second after the first), with
/// the rate lowered only after a rate-limit error; any other error gives
/// up at once.
pub proof fn lemma_retry_by_error_kind(
    before: RetryState,
    err: LoadError,
    current_rate: usize,
    has_limiter: bool,
    after: RetryState,
    step: RetryStep,
)
    requires
        retry_decision(before, err, current_rate, has_limiter, after, step),
        before.attempt + 1 < before.max_retries,
    ensures
        (err is Network || err is RateLimit || err is ApiRequest) ==> (step matches RetryStep::Retry {
            delay_secs,
            adjusted_rate,
        } && delay_secs == pow2(before.attempt as nat) as u64 && (!(err is RateLimit) ==> adjusted_rate is None)),
        err is RateLimit && before.attempt + 1 < before.max_retries ==> (step matches RetryStep::Retry {
            adjusted_rate,
            ..
        } && adjusted_rate == (if has_limiter {
            Some(
                if current_rate * 3 / 4 >= 1 {
                    (current_rate * 3 / 4) as usize
                } else {
                    1usize
                },
            )
        } else {
            None
        })),
        before.attempt == 0 && (err is Network || err is RateLimit || err is ApiRequest) ==> (step matches RetryStep::Retry {
            delay_secs,
            ..
        } && delay_secs == 1),
        !(err is Network || err is RateLimit || err is ApiRequest) ==> step is GiveUp,
{
    assert(pow2(0) == 1) by {
        vstd::arithmetic::power2::lemma2_to64();
    }
}

/// The failure that a detailed response's entry describes, read from the
/// entry itself: its place in the list, its string `id` when it has one,
/// and its `error` (`Unknown error` without one).
pub open spec fn entry_failure(items: Seq<ValueModel>, i: int) -> FailureView {
    FailureView {
        index: i,
        id: opt_text(field_of(items[i], "id"@)),
        error: match opt_text(field_of(items[i], "error"@)) {
            Some(e) => e,
            None => "Unknown error"@,
        },
    }
}

/// The entry at `i` reports a failure: its `status` is a text other than
/// `success`.
pub open spec fn entry_failed(items: Seq<ValueModel>, i: int) -> bool {
    opt_text(field_of(items[i], "status"@)) is Some && opt_text(field_of(items[i], "status"@))->Some_0 != "success"@
}

/// Each failure read from a detailed response is the failure of one of its
/// entries whose status is not `success`, carrying that entry's string `id`
/// (when it has one) and its error; the failures come in list order.
pub proof fn lemma_detailed_failures_are_entries(items: Seq<ValueModel>)
    ensures
        forall|k: int|
            0 <= k < detailed_failures(items).len() ==> 0 <= (#[trigger] detailed_failures(items)[k]).index < items.len()
                && entry_failed(items, detailed_failures(items)[k].index) && detailed_failures(items)[k]
                == entry_failure(items, detailed_failures(items)[k].index),
        forall|k: int, l: int|
            0 <= k < l < detailed_failures(items).len() ==> #[trigger] detailed_failures(items)[k].index
                < #[trigger] detailed_failures(items)[l].index,
    decreases items.len(),
{
    if items.len() > 0 {
        let p = items.drop_last();
        lemma_detailed_failures_are_entries(p);
        let prev = detailed_failures(p);
        let all = detailed_failures(items);
        assert forall|k: int| 0 <= k < prev.len() implies #[trigger] items[prev[k].index] == p[prev[k].index] by {}
        assert forall|k: int| 0 <= k < prev.len() implies entry_failure(items, prev[k].index) == entry_failure(
            p,
            prev[k].index,
        ) && entry_failed(items, prev[k].index) == entry_failed(p, prev[k].index) by {
            assert(items[prev[k].index] == p[prev[k].index]);
        }
        assert forall|k: int| 0 <= k < all.len() && k < prev.len() implies #[trigger] all[k] == prev[k] by {}
    }
}

/// Every entry of a detailed response whose status is a text other than
/// `success` gives a failure at its place in the list.
pub proof fn lemma_failed_entries_reported(items: Seq<ValueModel>, i: int)
    requires
        0 <= i < items.len(),
        entry_failed(items, i),
    ensures
        exists|k: int| 0 <= k < detailed_failures(items).len() && (#[trigger] detailed_failures(items)[k]).index == i,
    decreases items.len(),
{
    let p = items.drop_last();
    let all = detailed_failures(items);
    if i < items.len() - 1 {
        assert(items[i] == p[i]);
        lemma_failed_entries_reported(p, i);
        let k = choose|k: int| 0 <= k < detailed_failures(p).len() && (#[trigger] detailed_failures(p)[k]).index == i;
        assert(all[k] == detailed_failures(p)[k]);
    } else {
        assert(all[all.len() - 1].index == i);
    }
}

/// A response whose `results` field is a list reports, for each entry that
/// failed, that entry's `id` and error: what `response_result` gives is the
/// list's successes and the failures `lemma_detailed_failures_are_entries`
/// describes.
pub proof fn lemma_detailed_response_failures(j: ValueModel, total: int)
    requires
        opt_items(field_of(j, "results"@)) is Some,
    ensures
        ({
            let items = opt_items(field_of(j, "results"@))->Some_0;
            let out = json_outcome(Some(j), total);
            &&& out.failures == detailed_failures(items)
            &&& out.failed == out.failures.len()
            &&& out.success + out.failed == items.len()
            &&& forall|k: int|
                0 <= k < out.failures.len() ==> 0 <= (#[trigger] out.failures[k]).index < items.len()
                    && out.failures[k].id == opt_text(field_of(items[out.failures[k].index], "id"@))
        }),
{
    let items = opt_items(field_of(j, "results"@))->Some_0;
    lemma_detailed_failures_are_entries(items);
    lemma_detailed_counts(items);
}

/// A response with no `results` list but an `errors` list reports one
/// failure per listed error, in order, each carrying that error entry's
/// `index` (0 without one), string `id` and `error`; its successes are the
/// `created` count (0 without one).
pub proof fn lemma_simple_response_failures(j: ValueModel, total: int)
    requires
        opt_items(field_of(j, "results"@)) is None,
        opt_items(field_of(j, "errors"@)) is Some,
    ensures
        ({
            let errs = opt_items(field_of(j, "errors"@))->Some_0;
            let out = json_outcome(Some(j), total);
            &&& out.failures.len() == errs.len()
            &&& out.failed == errs.len()
            &&& out.success == (match opt_u64(field_of(j, "created"@)) {
                Some(n) => n as usize,
                None => 0usize,
            })
            &&& forall|k: int|
                0 <= k < errs.len() ==> (#[trigger] out.failures[k]).id == opt_text(field_of(errs[k], "id"@))
                    && out.failures[k].index == (match opt_u64(field_of(errs[k], "index"@)) {
                    Some(n) => n as usize,
                    None => 0usize,
                }) && out.failures[k].error == match opt_text(field_of(errs[k], "error"@)) {
                    Some(e) => e,
                    None => "Unknown error"@,
                }
        }),
{
}

/// Base.vn API loader: access-token authentication, rate limiting,
/// exponential backoff and batch processing. This type holds the loader's
/// decisions; sending requests is left to its caller.
pub struct BaseVnLoader {}

impl Default for BaseVnLoader {
    fn default() -> (r: Self)
        ensures
            r == (BaseVnLoader {}),
    {
        BaseVnLoader {}
    }
}

impl BaseVnLoader {
    /// Creates a new Base.vn loader.
    pub fn new() -> (l: Self) {
        BaseVnLoader {}
    }

    /// Unique identifier for this loader.
    pub fn name(&self) -> (r: &'static str)
        ensures
            r@ == "basevn"@,
    {
        "basevn"
    }

    /// Validates the target configuration: app and entity must not be
    /// empty, an access token must be given for access-token auth, and the
    /// batch size must be positive (checked in that order).
    pub fn validate_config(&self, config: &TargetConfig) -> (r: Result<(), ConfigError>)
        ensures
            ({
                let b = config->basevn;
                &&& b.app@.len() == 0 ==> r is Err && is_validation(r->Err_0, "Base.vn app name cannot be empty"@)
                &&& b.app@.len() != 0 && b.entity@.len() == 0 ==> r is Err && is_validation(
                    r->Err_0,
                    "Base.vn entity name cannot be empty"@,
                )
                &&& b.app@.len() != 0 && b.entity@.len() != 0 && b.auth.auth_type == AuthType::AccessToken
                    && b.auth.token is None ==> r is Err && is_validation(
                    r->Err_0,
                    "Access token is required for access_token auth type"@,
                )
                &&& b.app@.len() != 0 && b.entity@.len() != 0 && !(b.auth.auth_type == AuthType::AccessToken
                    && b.auth.token is None) && b.options.batch_size == 0 ==> r is Err && is_validation(
                    r->Err_0,
                    "Batch size must be > 0"@,
                )
                &&& r is Ok <==> (b.app@.len() != 0 && b.entity@.len() != 0 && !(b.auth.auth_type
                    == AuthType::AccessToken && b.auth.token is None) && b.options.batch_size != 0)
            }),
    {
        match config {
            TargetConfig::BaseVn { basevn } => {
                if basevn.app.as_str().is_empty() {
                    return Err(validation("Base.vn app name cannot be empty"));
                }
                if basevn.entity.as_str().is_empty() {
                    return Err(validation("Base.vn entity name cannot be empty"));
                }
                if basevn.auth.auth_type == AuthType::AccessToken && basevn.auth.token.is_none() {
                    return Err(validation("Access token is required for access_token auth type"));
                }
                if basevn.options.batch_size == 0 {
                    return Err(validation("Batch size must be > 0"));
                }
                Ok(())
            },
        }
    }

    /// The URL that a batch is posted to: `{base_url}/api/{app}/{entity}`.
    pub fn batch_url(&self, config: &BaseVnConfig) -> (r: String)
        ensures
            r@ == config.base_url@ + "/api/"@ + config.app@ + "/"@ + config.entity@,
    {
        let mut url = config.base_url.clone();
        append(&mut url, "/api/");
        append(&mut url, config.app.as_str());
        append(&mut url, "/");
        append(&mut url, config.entity.as_str());
        url
    }

    /// The authorization header's value, `Bearer {token}`; an
    /// authentication error when no token is configured.
    pub fn authorization(&self, config: &BaseVnConfig) -> (r: Result<String, LoadError>)
        ensures
            match config.auth.token {
                Some(t) => r matches Ok(h) && h@ == "Bearer "@ + t@,
                None => r matches Err(e) && is_auth(e, "Access token not provided"@),
            },
    {
        match &config.auth.token {
            Some(token) => {
                let mut h = owned("Bearer ");
                append(&mut h, token.as_str());
                Ok(h)
            },
            None => Err(LoadError::Auth(owned("Access token not provided"))),
        }
    }

    /// Checks a response's status: 429 is a rate-limit error, 401 and 403
    /// are authentication errors, any other status outside 200-299 is an
    /// API request error; the body is quoted in the messages.
    pub fn check_status(&self, status: u16, body: &str) -> (r: Result<(), LoadError>)
        requires
            100 <= status <= 999,
        ensures
            status == 429 ==> (r matches Err(e) && e matches LoadError::RateLimit { retry_after: None }),
            status == 401 || status == 403 ==> (r matches Err(e) && is_auth(e, "Authentication failed: "@ + body@)),
            status != 429 && status != 401 && status != 403 && !(200 <= status <= 299) ==> (r matches Err(e)
                && is_api_request(e, "API request failed with status "@ + status_display(status) + ": "@ + body@)),
            r is Ok <==> 200 <= status <= 299,
    {
        if status == 429 {
            return Err(LoadError::RateLimit { retry_after: None });
        }
        if status == 401 || status == 403 {
            let mut msg = owned("Authentication failed: ");
            append(&mut msg, body);
            return Err(LoadError::Auth(msg));
        }
        if !(200 <= status && status <= 299) {
            let mut msg = owned("API request failed with status ");
            let shown = status_text(status);
            append(&mut msg, shown.as_str());
            append(&mut msg, ": ");
            append(&mut msg, body);
            return Err(LoadError::ApiRequest(msg));
        }
        Ok(())
    }

    /// Reads a response body to count the batch's successes and failures:
    /// a detailed `results` list, else a simple `errors` list with a
    /// `created` count, else every record counts as a success.
    pub fn parse_response(&self, response_text: &str, total_records: usize) -> (r: Result<LoadResult, LoadError>)
        ensures
            r matches Ok(res) && res@ == response_outcome(response_text@, total_records as int),
    {
        let json = parse_json(response_text);
        let r = match &json {
            Some(v) => Self::response_result(Some(v), total_records),
            None => Self::response_result(None, total_records),
        };
        Ok(r)
    }

    /// The counts that a response body's JSON (none when the body is not
    /// JSON) gives for a batch of `total_records` records.
    pub fn response_result(json: Option<&Value>, total_records: usize) -> (r: LoadResult)
        ensures
            r@ == json_outcome(
                match json {
                    Some(v) => Some(v@),
                    None => None,
                },
                total_records as int,
            ),
    {
        let json = match json {
            Some(v) => v,
            None => {
                return LoadResult::success(total_records);
            },
        };
        match json.get_field("results") {
            Some(results) => match results.as_array() {
                Some(items) => {
                    assert(results@->Array_0 =~= Seq::new(items@.len(), |i: int| items@[i]@));
                    return read_detailed(items, total_records);
                },
                None => {},
            },
            None => {},
        }
        match json.get_field("errors") {
            Some(errors) => match errors.as_array() {
                Some(items) => {
                    let created = match json.get_field("created") {
                        Some(c) => match c.as_u64() {
                            Some(n) => n,
                            None => 0,
                        },
                        None => 0,
                    };
                    assert(errors@->Array_0 =~= Seq::new(items@.len(), |i: int| items@[i]@));
                    let mut res = read_simple(items, total_records);
                    res.success = created as usize;
                    return res;
                },
                None => {},
            },
            None => {},
        }
        LoadResult::success(total_records)
    }
}

/// The text of an optional string value.
fn text_field(item: &Value, key: &str) -> (r: Option<String>)
    ensures
        match r {
            Some(s) => opt_text(field_of(item@, key@)) == Some(s@),
            None => opt_text(field_of(item@, key@)) is None,
        },
{
    match item.get_field(key) {
        Some(v) => match v.as_str() {
            Some(s) => Some(s.clone()),
            None => None,
        },
        None => None,
    }
}

/// Counts a detailed response's entries.
fn read_detailed(items: &Vec<Value>, total: usize) -> (r: LoadResult)
    ensures
        ({
            let m = Seq::new(items@.len(), |i: int| items@[i]@);
            r@ == LoadResultView {
                total: total as int,
                success: detailed_successes(m),
                failed: detailed_failures(m).len() as int,
                failures: detailed_failures(m),
            }
        }),
{
    let ghost m = Seq::new(items@.len(), |i: int| items@[i]@);
    let mut res = LoadResult::new(total);
    let success_text = owned("success");
    let mut i: usize = 0;
    while i < items.len()
        invariant
            i <= items@.len(),
            success_text@ == "success"@,
            m == Seq::new(items@.len(), |i: int| items@[i]@),
            res@ == (LoadResultView {
                total: total as int,
                success: detailed_successes(m.take(i as int)),
                failed: detailed_failures(m.take(i as int)).len() as int,
                failures: detailed_failures(m.take(i as int)),
            }),
            detailed_successes(m.take(i as int)) + detailed_failures(m.take(i as int)).len() == i,
        decreases items@.len() - i,
    {
        let item = &items[i];
        assert(m.take(i + 1).drop_last() =~= m.take(i as int));
        assert(m.take(i + 1).last() == item@);
        let status = text_field(item, "status");
        let succeeded = match &status {
            Some(s) => *s == success_text,
            None => true,
        };
        assert(succeeded == (item_status(item@) == "success"@));
        if succeeded {
            res.add_success();
        } else {
            let error = match text_field(item, "error") {
                Some(e) => e,
                None => owned("Unknown error"),
            };
            let id = text_field(item, "id");
            res.add_failure(i, id, error);
        }
        i = i + 1;
    }
    assert(m.take(items@.len() as int) =~= m);
    res
}

/// Collects a simple response's error entries.
fn read_simple(items: &Vec<Value>, total: usize) -> (r: LoadResult)
    ensures
        ({
            let m = Seq::new(items@.len(), |i: int| items@[i]@);
            r@ == LoadResultView {
                total: total as int,
                success: 0,
                failed: items@.len() as int,
                failures: m.map_values(|e: ValueModel| simple_failure(e)),
            }
        }),
{
    let ghost m = Seq::new(items@.len(), |i: int| items@[i]@);
    let mut res = LoadResult::new(total);
    assert(m.take(0).map_values(|e: ValueModel| simple_failure(e)) =~= Seq::<FailureView>::empty());
    let mut i: usize = 0;
    while i < items.len()
        invariant
            i <= items@.len(),
            m == Seq::new(items@.len(), |i: int| items@[i]@),
            res@ == (LoadResultView {
                total: total as int,
                success: 0,
                failed: i as int,
                failures: m.take(i as int).map_values(|e: ValueModel| simple_failure(e)),
            }),
        decreases items@.len() - i,
    {
        let item = &items[i];
        let index = match item.get_field("index") {
            Some(v) => match v.as_u64() {
                Some(n) => n,
                None => 0,
            },
            None => 0,
        };
        let error = match text_field(item, "error") {
            Some(e) => e,
            None => owned("Unknown error"),
        };
        let id = text_field(item, "id");
        res.add_failure(index as usize, id, error);
        assert(m.take(i + 1).map_values(|e: ValueModel| simple_failure(e)) =~= m.take(i as int).map_values(
            |e: ValueModel| simple_failure(e),
        ).push(simple_failure(m[i as int])));
        i = i + 1;
    }
    assert(m.take(items@.len() as int) =~= m);
    res
}

} // verus!
