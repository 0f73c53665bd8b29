//! The HTTP fetcher's policy: retry with exponential backoff and jitter on
//! transport failures, pacing before dispatch, and per-host timeouts.
//!
//! The transport itself lives outside this crate. A live driver fetches a
//! URL, hands each attempt's outcome to [`retry_decide`], and either retries
//! after the returned delay or records the returned result; a scripted run
//! hands the whole outcome sequence to [`run_attempts`]. Retries happen only
//! on transport failures, never on a received HTTP status: a deterministic
//! server-side rejection would not change on a second attempt.

use vstd::prelude::*;

verus! {

use crate::result::{CheckResult, CheckModel, Reason, ReasonModel, spec_healthy_status,
    is_healthy_status};
/// What one fetch attempt of a URL produced: a response with a status code,
/// or a transport-level failure (connection error, timeout, DNS failure).
pub enum AttemptOutcome {
    Status(u16),
    TransportFailure(String),
}

/// The mathematical shape of an [`AttemptOutcome`].
pub enum AttemptModel {
    Status(u16),
    TransportFailure(Seq<char>),
}

impl View for AttemptOutcome {
    type V = AttemptModel;

    open spec fn view(&self) -> AttemptModel {
        match self {
            AttemptOutcome::Status(s) => AttemptModel::Status(*s),
            AttemptOutcome::TransportFailure(m) => AttemptModel::TransportFailure(m@),
        }
    }
}

impl DeepView for AttemptOutcome {
    type V = AttemptModel;

    open spec fn deep_view(&self) -> AttemptModel {
        self.view()
    }
}

/// The transport error text of a failed attempt.
pub open spec fn spec_transport_message(a: AttemptModel) -> Seq<char>
    recommends
        a is TransportFailure,
{
    match a {
        AttemptModel::TransportFailure(m) => m,
        AttemptModel::Status(_) => Seq::empty(),
    }
}

/// The retry/backoff policy of the fetcher.
pub struct RetryPolicy {
    /// Total number of attempts for one URL, first attempt included.
    pub max_attempts: u64,
    /// Base backoff delay; doubles after every failed attempt.
    pub base_delay_ms: u64,
    /// Upper bound on the random jitter added to each backoff delay.
    pub max_jitter_ms: u64,
}

/// The policy bounds under which backoff arithmetic cannot overflow.
pub open spec fn spec_policy_wf(p: RetryPolicy) -> bool {
    &&& 1 <= p.max_attempts <= 10
    &&& 1 <= p.base_delay_ms <= 60000
    &&& p.max_jitter_ms <= p.base_delay_ms
}

/// The default policy: 5 attempts, 2 s backoff base, up to 2 s jitter.
pub fn default_policy() -> (p: RetryPolicy)
    ensures
        p.max_attempts == 5,
        p.base_delay_ms == 2000,
        p.max_jitter_ms == 2000,
        spec_policy_wf(p),
{
    RetryPolicy { max_attempts: 5, base_delay_ms: 2000, max_jitter_ms: 2000 }
}

/// Two to the power `n`.
pub open spec fn pow2(n: nat) -> nat
    decreases n,
{
    if n == 0 {
        1
    } else {
        2 * pow2((n - 1) as nat)
    }
}

pub proof fn lemma_pow2_pos(n: nat)
    ensures
        pow2(n) >= 1,
    decreases n,
{
    if n > 0 {
        lemma_pow2_pos((n - 1) as nat);
    }
}

pub proof fn lemma_pow2_monotone(a: nat, b: nat)
    requires
        a <= b,
    ensures
        pow2(a) <= pow2(b),
    decreases b,
{
    if a < b {
        lemma_pow2_monotone(a, (b - 1) as nat);
        lemma_pow2_pos((b - 1) as nat);
    }
}

/// `jitter` capped at the policy's jitter bound.
pub open spec fn spec_clamped_jitter(p: RetryPolicy, jitter: int) -> int {
    if jitter <= p.max_jitter_ms {
        jitter
    } else {
        p.max_jitter_ms as int
    }
}

/// The backoff delay after the `attempt`-th failed attempt: the base delay
/// doubled `attempt - 1` times, plus the capped jitter.
pub open spec fn spec_backoff_ms(p: RetryPolicy, attempt: int, jitter: int) -> int
    recommends
        1 <= attempt,
        0 <= jitter,
{
    p.base_delay_ms * pow2((attempt - 1) as nat) + spec_clamped_jitter(p, jitter)
}

proof fn lemma_backoff_fits(p: RetryPolicy, e: nat)
    requires
        spec_policy_wf(p),
        e <= 9,
    ensures
        p.base_delay_ms * pow2(e) <= 30720000,
{
    lemma_pow2_monotone(e, 9);
    reveal_with_fuel(pow2, 11);
    assert(pow2(9) == 512);
    assert(p.base_delay_ms * pow2(e) <= 60000 * 512) by (nonlinear_arith)
        requires
            p.base_delay_ms <= 60000,
            pow2(e) <= 512,
    ;
}

/// Computes the backoff delay before the next attempt, after `attempt`
/// attempts have failed. The caller supplies the jitter; any value above the
/// policy's jitter bound is capped.
pub fn backoff_delay_ms(p: &RetryPolicy, attempt: u64, jitter_ms: u64) -> (r: u64)
    requires
        spec_policy_wf(*p),
        1 <= attempt <= p.max_attempts,
    ensures
        r == spec_backoff_ms(*p, attempt as int, jitter_ms as int),
{
    let mut d: u64 = p.base_delay_ms;
    let mut k: u64 = 1;
    proof {
        assert(pow2(0) == 1);
        assert(p.base_delay_ms * pow2(0) == p.base_delay_ms) by (nonlinear_arith)
            requires
                pow2(0) == 1,
        ;
    }
    while k < attempt
        invariant
            spec_policy_wf(*p),
            1 <= k <= attempt,
            attempt <= p.max_attempts,
            d == p.base_delay_ms * pow2((k - 1) as nat),
        decreases attempt - k,
    {
        proof {
            lemma_backoff_fits(*p, (k - 1) as nat);
            assert(pow2(k as nat) == 2 * pow2((k - 1) as nat));
            assert(p.base_delay_ms * pow2(k as nat) == 2 * (p.base_delay_ms * pow2(
                (k - 1) as nat,
            ))) by (nonlinear_arith)
                requires
                    pow2(k as nat) == 2 * pow2((k - 1) as nat),
            ;
        }
        d = d * 2;
        k = k + 1;
    }
    proof {
        lemma_backoff_fits(*p, (attempt - 1) as nat);
    }
    let j = if jitter_ms <= p.max_jitter_ms {
        jitter_ms
    } else {
        p.max_jitter_ms
    };
    d + j
}

/// Backoff delays never shrink from one attempt to the next, whatever jitter
/// each attempt draws.
pub proof fn lemma_backoff_monotone(p: RetryPolicy, a1: int, a2: int, j1: int, j2: int)
    requires
        spec_policy_wf(p),
        1 <= a1 < a2,
        0 <= j1,
        0 <= j2,
    ensures
        spec_backoff_ms(p, a1, j1) <= spec_backoff_ms(p, a2, j2),
{
    let b = p.base_delay_ms as int;
    let e1 = (a1 - 1) as nat;
    let e2 = (a2 - 1) as nat;
    lemma_pow2_pos(e1);
    assert(b <= b * pow2(e1)) by (nonlinear_arith)
        requires
            pow2(e1) >= 1,
            b >= 1,
    ;
    assert(pow2((e1 + 1) as nat) == 2 * pow2(e1));
    assert(b * pow2(e1) + b * pow2(e1) == b * pow2((e1 + 1) as nat)) by (nonlinear_arith)
        requires
            pow2((e1 + 1) as nat) == 2 * pow2(e1),
    ;
    lemma_pow2_monotone(e1 + 1, e2);
    assert(b * pow2((e1 + 1) as nat) <= b * pow2(e2)) by (nonlinear_arith)
        requires
            pow2((e1 + 1) as nat) <= pow2(e2),
            b >= 0,
    ;
}

/// The verdict on a URL that answered with `status`.
pub open spec fn spec_status_verdict(status: u16, url: Seq<char>, context_page: Seq<char>)
    -> CheckModel {
    if spec_healthy_status(status) {
        CheckModel::Healthy { url }
    } else {
        CheckModel::Failed { url, context_page, reason: ReasonModel::Status(status) }
    }
}

/// How many attempts a fetch makes when the attempts produce `outcomes` in
/// turn: it stops at the first attempt that gets a response, and never makes
/// more than `max` attempts.
pub open spec fn spec_attempts_used(outcomes: Seq<AttemptModel>, max: nat) -> nat
    recommends
        max >= 1,
        outcomes.len() >= max,
    decreases max,
{
    if max <= 1 || outcomes.len() == 0 {
        1
    } else if !(outcomes[0] is TransportFailure) {
        1
    } else {
        1 + spec_attempts_used(outcomes.drop_first(), (max - 1) as nat)
    }
}

/// The recorded outcome of validating `url` when its attempts produce
/// `outcomes` in turn: the status verdict of the first response, or the last
/// transport error once `max` attempts are exhausted.
pub open spec fn spec_validate_verdict(
    outcomes: Seq<AttemptModel>,
    max: nat,
    url: Seq<char>,
    context_page: Seq<char>,
) -> CheckModel
    recommends
        max >= 1,
        outcomes.len() >= max,
{
    let n = spec_attempts_used(outcomes, max);
    match outcomes[n - 1] {
        AttemptModel::Status(s) => spec_status_verdict(s, url, context_page),
        AttemptModel::TransportFailure(m) => CheckModel::Failed {
            url,
            context_page,
            reason: ReasonModel::Transport(m),
        },
    }
}

proof fn lemma_used_stops_at(outs: Seq<AttemptModel>, max: nat, i: nat)
    requires
        max >= 1,
        outs.len() >= max,
        i < max,
        forall|j: int| 0 <= j < i ==> outs[j] is TransportFailure,
        !(outs[i as int] is TransportFailure),
    ensures
        spec_attempts_used(outs, max) == i + 1,
    decreases i,
{
    if i > 0 {
        let rest = outs.drop_first();
        assert forall|j: int| 0 <= j < i - 1 implies rest[j] is TransportFailure by {
            assert(rest[j] == outs[j + 1]);
        }
        assert(rest[i - 1] == outs[i as int]);
        lemma_used_stops_at(rest, (max - 1) as nat, (i - 1) as nat);
    }
}

proof fn lemma_used_exhausts(outs: Seq<AttemptModel>, max: nat)
    requires
        max >= 1,
        outs.len() >= max,
        forall|j: int| 0 <= j < max ==> outs[j] is TransportFailure,
    ensures
        spec_attempts_used(outs, max) == max,
    decreases max,
{
    if max > 1 {
        let rest = outs.drop_first();
        assert forall|j: int| 0 <= j < max - 1 implies rest[j] is TransportFailure by {
            assert(rest[j] == outs[j + 1]);
        }
        lemma_used_exhausts(rest, (max - 1) as nat);
    }
}

/// A URL whose every attempt fails at the transport level is retried exactly
/// `max` times in all, and is then recorded `Failed` carrying the last
/// transport error.
pub proof fn lemma_retry_exhaustion(
    outcomes: Seq<AttemptModel>,
    max: nat,
    url: Seq<char>,
    context_page: Seq<char>,
)
    requires
        max >= 1,
        outcomes.len() >= max,
        forall|j: int| 0 <= j < max ==> outcomes[j] is TransportFailure,
    ensures
        spec_attempts_used(outcomes, max) == max,
        spec_validate_verdict(outcomes, max, url, context_page) == (CheckModel::Failed {
            url,
            context_page,
            reason: ReasonModel::Transport(spec_transport_message(outcomes[max - 1])),
        }),
{
    lemma_used_exhausts(outcomes, max);
}

/// Runs the full retry schedule of one URL against a script of attempt
/// outcomes, and returns how many attempts were made and the recorded
/// result.
pub fn run_attempts(
    policy: &RetryPolicy,
    url: &String,
    context_page: &String,
    outcomes: &Vec<AttemptOutcome>,
) -> (r: (u64, CheckResult))
    requires
        spec_policy_wf(*policy),
        outcomes@.len() >= policy.max_attempts,
    ensures
        r.0 == spec_attempts_used(outcomes.deep_view(), policy.max_attempts as nat),
        r.1@ == spec_validate_verdict(
            outcomes.deep_view(),
            policy.max_attempts as nat,
            url@,
            context_page@,
        ),
        1 <= r.0 <= policy.max_attempts,
{
    let ghost dv = outcomes.deep_view();
    let max: usize = policy.max_attempts as usize;
    let mut i: usize = 0;
    while i < max
        invariant
            spec_policy_wf(*policy),
            max == policy.max_attempts,
            outcomes@.len() >= max,
            dv == outcomes.deep_view(),
            i <= max - 1,
            forall|j: int| 0 <= j < i ==> dv[j] is TransportFailure,
        decreases max - i,
    {
        proof {
            assert(dv[i as int] == outcomes@[i as int]@);
        }
        match &outcomes[i] {
            AttemptOutcome::Status(s) => {
                proof {
                    lemma_used_stops_at(dv, max as nat, i as nat);
                }
                let verdict = if is_healthy_status(*s) {
                    CheckResult::Healthy { url: url.clone() }
                } else {
                    CheckResult::Failed {
                        url: url.clone(),
                        context_page: context_page.clone(),
                        reason: Reason::Status(*s),
                    }
                };
                return ((i + 1) as u64, verdict);
            },
            AttemptOutcome::TransportFailure(m) => {
                if i + 1 == max {
                    proof {
                        lemma_used_exhausts(dv, max as nat);
                    }
                    return (
                        policy.max_attempts,
                        CheckResult::Failed {
                            url: url.clone(),
                            context_page: context_page.clone(),
                            reason: Reason::Transport(m.clone()),
                        },
                    );
                }
            },
        }
        i = i + 1;
    }
    proof {
        assert(false);
    }
    (0, CheckResult::Healthy { url: url.clone() })
}

/// What the live fetch loop should do after one attempt.
pub enum RetryDecision {
    /// Record this result; the URL is done.
    Finish(CheckResult),
    /// Wait this many milliseconds, then attempt again.
    RetryAfter(u64),
}

/// Decides, after the `attempt`-th attempt of `url` produced `outcome`,
/// whether to retry — and after which backoff delay — or which result to
/// record. A received status always finishes; a transport failure retries
/// until the policy's attempts are exhausted.
pub fn retry_decide(
    policy: &RetryPolicy,
    url: &String,
    context_page: &String,
    attempt: u64,
    outcome: &AttemptOutcome,
    jitter_ms: u64,
) -> (r: RetryDecision)
    requires
        spec_policy_wf(*policy),
        1 <= attempt <= policy.max_attempts,
    ensures
        (match outcome@ {
            AttemptModel::Status(s) => (r matches RetryDecision::Finish(c) && c@
                == spec_status_verdict(s, url@, context_page@)),
            AttemptModel::TransportFailure(m) => if attempt < policy.max_attempts {
                r == RetryDecision::RetryAfter(
                    spec_backoff_ms(*policy, attempt as int, jitter_ms as int) as u64,
                )
            } else {
                (r matches RetryDecision::Finish(c) && c@ == (CheckModel::Failed {
                    url: url@,
                    context_page: context_page@,
                    reason: ReasonModel::Transport(m),
                }))
            },
        }),
{
    match outcome {
        AttemptOutcome::Status(s) => {
            if is_healthy_status(*s) {
                RetryDecision::Finish(CheckResult::Healthy { url: url.clone() })
            } else {
                RetryDecision::Finish(
                    CheckResult::Failed {
                        url: url.clone(),
                        context_page: context_page.clone(),
                        reason: Reason::Status(*s),
                    },
                )
            }
        },
        AttemptOutcome::TransportFailure(m) => {
            if attempt < policy.max_attempts {
                RetryDecision::RetryAfter(backoff_delay_ms(policy, attempt, jitter_ms))
            } else {
                RetryDecision::Finish(
                    CheckResult::Failed {
                        url: url.clone(),
                        context_page: context_page.clone(),
                        reason: Reason::Transport(m.clone()),
                    },
                )
            }
        },
    }
}

/// The pacing delay drawn before a request is dispatched: between 200 and
/// 500 ms, driven by whatever entropy the caller supplies.
pub fn pacing_delay_ms(entropy: u64) -> (r: u64)
    ensures
        r == 200 + entropy % 301,
        200 <= r <= 500,
{
    200 + entropy % 301
}

/// One per-host timeout override.
pub struct TimeoutRule {
    pub host: String,
    pub timeout_ms: u64,
}

/// The mathematical shape of a [`TimeoutRule`].
pub struct TimeoutRuleModel {
    pub host: Seq<char>,
    pub timeout_ms: u64,
}

impl View for TimeoutRule {
    type V = TimeoutRuleModel;

    open spec fn view(&self) -> TimeoutRuleModel {
        TimeoutRuleModel { host: self.host@, timeout_ms: self.timeout_ms }
    }
}

impl DeepView for TimeoutRule {
    type V = TimeoutRuleModel;

    open spec fn deep_view(&self) -> TimeoutRuleModel {
        self.view()
    }
}

/// Per-request timeouts: a default, and a table of per-host overrides for
/// known-slow hosts.
pub struct TimeoutConfig {
    pub default_ms: u64,
    pub rules: Vec<TimeoutRule>,
}

/// The timeout for `host`: the first matching override, else the default.
pub open spec fn spec_timeout_for_host(
    default_ms: u64,
    rules: Seq<TimeoutRuleModel>,
    host: Seq<char>,
) -> u64
    decreases rules.len(),
{
    if rules.len() == 0 {
        default_ms
    } else if rules[0].host == host {
        rules[0].timeout_ms
    } else {
        spec_timeout_for_host(default_ms, rules.drop_first(), host)
    }
}

proof fn lemma_timeout_skip(default_ms: u64, rules: Seq<TimeoutRuleModel>, host: Seq<char>, i: nat)
    requires
        i <= rules.len(),
        forall|j: int| 0 <= j < i ==> rules[j].host != host,
    ensures
        spec_timeout_for_host(default_ms, rules, host) == spec_timeout_for_host(
            default_ms,
            rules.skip(i as int),
            host,
        ),
    decreases i,
{
    if i > 0 {
        let rest = rules.drop_first();
        assert(rules[0].host != host);
        assert forall|j: int| 0 <= j < i - 1 implies rest[j].host != host by {
            assert(rest[j] == rules[j + 1]);
        }
        lemma_timeout_skip(default_ms, rest, host, (i - 1) as nat);
        assert(rest.skip(i - 1) =~= rules.skip(i as int));
    } else {
        assert(rules.skip(0) =~= rules);
    }
}

/// Looks up the timeout for `host` in the override table.
pub fn timeout_for_host(cfg: &TimeoutConfig, host: &String) -> (r: u64)
    ensures
        r == spec_timeout_for_host(cfg.default_ms, cfg.rules.deep_view(), host@),
{
    let ghost rules = cfg.rules.deep_view();
    let mut i: usize = 0;
    while i < cfg.rules.len()
        invariant
            rules == cfg.rules.deep_view(),
            i <= cfg.rules@.len(),
            forall|j: int| 0 <= j < i ==> rules[j].host != host@,
        decreases cfg.rules@.len() - i,
    {
        proof {
            assert(rules[i as int] == cfg.rules@[i as int]@);
        }
        if cfg.rules[i].host.eq(host) {
            proof {
                lemma_timeout_skip(cfg.default_ms, rules, host@, i as nat);
                assert(rules.skip(i as int)[0] == rules[i as int]);
            }
            return cfg.rules[i].timeout_ms;
        }
        i = i + 1;
    }
    proof {
        lemma_timeout_skip(cfg.default_ms, rules, host@, cfg.rules@.len());
        assert(rules.skip(rules.len() as int).len() == 0);
    }
    cfg.default_ms
}

/// The host component of the serialized URL `u`, as the `url` crate parses
/// it; `None` when `u` does not parse or has no host. The value depends on
/// the string alone.
pub uninterp spec fn url_host(u: Seq<char>) -> Option<Seq<char>>;

/// Relies on `url::Url::parse` and `url::Url::host_str`: the host component
/// of a parsed URL, a deterministic function of the string.
#[verifier::external_body]
fn host_of(url: &str) -> (r: Option<String>)
    ensures
        match r {
            Some(h) => url_host(url@) == Some(h@),
            None => url_host(url@) is None,
        },
{
    match url::Url::parse(url) {
        Ok(u) => u.host_str().map(|h| h.to_string()),
        Err(_) => None,
    }
}

/// The timeout for a request to `u`: the override for its host if one is
/// configured, else the default.
pub open spec fn spec_timeout_for_url(
    default_ms: u64,
    rules: Seq<TimeoutRuleModel>,
    u: Seq<char>,
) -> u64 {
    match url_host(u) {
        Some(h) => spec_timeout_for_host(default_ms, rules, h),
        None => default_ms,
    }
}

/// The timeout to apply to a request for `url`.
pub fn timeout_for_url(cfg: &TimeoutConfig, url: &str) -> (r: u64)
    ensures
        r == spec_timeout_for_url(cfg.default_ms, cfg.rules.deep_view(), url@),
{
    match host_of(url) {
        Some(h) => timeout_for_host(cfg, &h),
        None => cfg.default_ms,
    }
}

} // verus!
