//! The frontier-driven traversal: pop one pending page, extract its links,
//! classify them, validate the batch, fold everything back into the state,
//! and repeat until no page is pending.
//!
//! The engine here runs against a scripted transport — a [`SiteModel`] that
//! says, for each URL, what its fetch attempts produce and which references
//! its markup holds. A live driver performs the same steps over real HTTP,
//! using the classifier and the retry policy of this crate for every
//! decision. The loop terminates on any finite site, cyclic or not: every
//! page is visited at most once, and each iteration either visits a page of
//! the model for the first time or shortens the pending queue.

use vstd::prelude::*;

verus! {

use crate::classify::{get_new_pages, get_new_links, spec_new_pages, spec_new_links,
    lemma_select_pages_facts, spec_is_page_candidate};
use crate::norm::spec_origin;
use crate::fetch::{RetryPolicy, spec_policy_wf, AttemptOutcome, AttemptModel, run_attempts,
    spec_validate_verdict};
use crate::norm::{strip_trailing_slash, spec_strip_slash};
use crate::result::{CheckResult, CheckModel, Reason, ReasonModel};
use crate::text::concat_strings;
use crate::state::{State, StateModel, spec_state_inv, spec_insert_new, spec_record,
    spec_record_all, record_result, insert_newpages_into_tobecheckedpages,
    insert_newlinks_into_checkedlinks, lemma_insert_new_facts, lemma_record_facts,
    lemma_push_contains_str, lemma_drop_first_facts, lemma_record_all_facts};

/// The scripted behaviour of one URL: what each fetch attempt produces, and
/// the raw references its markup holds when it can be crawled.
pub struct SiteEntry {
    pub url: String,
    pub attempts: Vec<AttemptOutcome>,
    pub hrefs: Vec<String>,
}

/// The mathematical shape of a [`SiteEntry`].
#[verifier::ext_equal]
pub struct SiteEntryModel {
    pub url: Seq<char>,
    pub attempts: Seq<AttemptModel>,
    pub hrefs: Seq<Seq<char>>,
}

impl View for SiteEntry {
    type V = SiteEntryModel;

    open spec fn view(&self) -> SiteEntryModel {
        SiteEntryModel {
            url: self.url@,
            attempts: self.attempts.deep_view(),
            hrefs: self.hrefs.deep_view(),
        }
    }
}

impl DeepView for SiteEntry {
    type V = SiteEntryModel;

    open spec fn deep_view(&self) -> SiteEntryModel {
        self.view()
    }
}

/// A scripted transport: one entry per URL that answers at all. A URL
/// without an entry fails every attempt at the transport level.
pub struct SiteModel {
    pub entries: Vec<SiteEntry>,
}

impl View for SiteModel {
    type V = Seq<SiteEntryModel>;

    open spec fn view(&self) -> Seq<SiteEntryModel> {
        self.entries.deep_view()
    }
}

/// Every entry scripts at least `max` attempts, so a full retry schedule
/// can always be played out against it.
pub open spec fn spec_site_wf(m: Seq<SiteEntryModel>, max: nat) -> bool {
    forall|i: int| 0 <= i < m.len() ==> (#[trigger] m[i]).attempts.len() >= max
}

/// The first entry for `url`, if any.
pub open spec fn spec_lookup(m: Seq<SiteEntryModel>, url: Seq<char>) -> Option<SiteEntryModel>
    decreases m.len(),
{
    if m.len() == 0 {
        None
    } else if m[0].url == url {
        Some(m[0])
    } else {
        spec_lookup(m.drop_first(), url)
    }
}

proof fn lemma_lookup_skip(m: Seq<SiteEntryModel>, url: Seq<char>, i: nat)
    requires
        i <= m.len(),
        forall|j: int| 0 <= j < i ==> m[j].url != url,
    ensures
        spec_lookup(m, url) == spec_lookup(m.skip(i as int), url),
    decreases i,
{
    if i > 0 {
        let rest = m.drop_first();
        assert(m[0].url != url);
        assert forall|j: int| 0 <= j < i - 1 implies rest[j].url != url by {
            assert(rest[j] == m[j + 1]);
        }
        lemma_lookup_skip(rest, url, (i - 1) as nat);
        assert(rest.skip(i - 1) =~= m.skip(i as int));
    } else {
        assert(m.skip(0) =~= m);
    }
}

/// A found entry scripts enough attempts, and a found entry means some
/// entry carries that URL.
pub proof fn lemma_lookup_found(m: Seq<SiteEntryModel>, url: Seq<char>, max: nat)
    requires
        spec_site_wf(m, max),
    ensures
        spec_lookup(m, url) matches Some(e) ==> e.attempts.len() >= max && e.url == url,
    decreases m.len(),
{
    if m.len() > 0 {
        assert(m[0].attempts.len() >= max);
        if m[0].url != url {
            let rest = m.drop_first();
            assert forall|i: int| 0 <= i < rest.len() implies (#[trigger] rest[i]).attempts.len()
                >= max by {
                assert(rest[i] == m[i + 1]);
            }
            lemma_lookup_found(rest, url, max);
        }
    }
}

/// Finds the scripted entry for `url`.
fn lookup<'a>(model: &'a SiteModel, url: &String) -> (r: Option<&'a SiteEntry>)
    ensures
        match r {
            Some(e) => spec_lookup(model@, url@) == Some(e.deep_view()),
            None => spec_lookup(model@, url@) is None,
        },
{
    let ghost m = model@;
    let mut i: usize = 0;
    while i < model.entries.len()
        invariant
            m == model@,
            i <= model.entries@.len(),
            forall|j: int| 0 <= j < i ==> m[j].url != url@,
        decreases model.entries@.len() - i,
    {
        proof {
            assert(m[i as int] == model.entries@[i as int]@);
        }
        if model.entries[i].url.eq(url) {
            proof {
                lemma_lookup_skip(m, url@, i as nat);
                assert(m.skip(i as int)[0] == m[i as int]);
            }
            return Some(&model.entries[i]);
        }
        i = i + 1;
    }
    proof {
        lemma_lookup_skip(m, url@, m.len());
        assert(m.skip(m.len() as int).len() == 0);
    }
    None
}

/// The outcome of validating `url` against the scripted site: its retry
/// schedule played against its entry's script, or a transport failure when
/// it has no entry.
pub open spec fn spec_validate(
    m: Seq<SiteEntryModel>,
    max: nat,
    url: Seq<char>,
    page: Seq<char>,
) -> CheckModel {
    match spec_lookup(m, url) {
        Some(e) => spec_validate_verdict(e.attempts, max, url, page),
        None => CheckModel::Failed {
            url,
            context_page: page,
            reason: ReasonModel::Transport("no response"@),
        },
    }
}

/// Validates one URL against the scripted site, with the full retry
/// schedule.
pub fn validate_url(
    model: &SiteModel,
    policy: &RetryPolicy,
    url: &String,
    page_being_checked: &String,
) -> (r: CheckResult)
    requires
        spec_policy_wf(*policy),
        spec_site_wf(model@, policy.max_attempts as nat),
    ensures
        r@ == spec_validate(model@, policy.max_attempts as nat, url@, page_being_checked@),
{
    proof {
        lemma_lookup_found(model@, url@, policy.max_attempts as nat);
    }
    match lookup(model, url) {
        Some(e) => {
            proof {
                assert(e.deep_view().attempts.len() == e.attempts@.len());
            }
            let (_, verdict) = run_attempts(policy, url, page_being_checked, &e.attempts);
            verdict
        },
        None => CheckResult::Failed {
            url: url.clone(),
            context_page: page_being_checked.clone(),
            reason: Reason::Transport(String::from_str("no response")),
        },
    }
}

/// The outcomes of validating `urls` in order, each against the scripted
/// site.
pub open spec fn spec_check_urls(
    m: Seq<SiteEntryModel>,
    max: nat,
    page: Seq<char>,
    urls: Seq<Seq<char>>,
) -> Seq<CheckModel>
    decreases urls.len(),
{
    if urls.len() == 0 {
        Seq::empty()
    } else {
        spec_check_urls(m, max, page, urls.drop_last()).push(
            spec_validate(m, max, urls.last(), page),
        )
    }
}

/// Validates a batch of URLs discovered on one page, returning one outcome
/// per URL in batch order. Against a live transport these fetches run
/// concurrently under the admission gate; their outcomes land in a set, so
/// the order carries no meaning.
pub fn check_urls(
    model: &SiteModel,
    policy: &RetryPolicy,
    page_being_checked: &String,
    urls: &Vec<String>,
) -> (r: Vec<CheckResult>)
    requires
        spec_policy_wf(*policy),
        spec_site_wf(model@, policy.max_attempts as nat),
    ensures
        r.deep_view() == spec_check_urls(
            model@,
            policy.max_attempts as nat,
            page_being_checked@,
            urls.deep_view(),
        ),
{
    let ghost dv = urls.deep_view();
    let mut out: Vec<CheckResult> = Vec::new();
    let mut i: usize = 0;
    while i < urls.len()
        invariant
            spec_policy_wf(*policy),
            spec_site_wf(model@, policy.max_attempts as nat),
            dv == urls.deep_view(),
            i <= urls@.len(),
            out.deep_view() == spec_check_urls(
                model@,
                policy.max_attempts as nat,
                page_being_checked@,
                dv.take(i as int),
            ),
        decreases urls@.len() - i,
    {
        proof {
            assert(dv.take(i + 1).drop_last() =~= dv.take(i as int));
            assert(dv.take(i + 1).last() == dv[i as int]);
            assert(dv[i as int] == urls@[i as int]@);
        }
        let verdict = validate_url(model, policy, &urls[i], page_being_checked);
        out.push(verdict);
        proof {
            assert(out.deep_view() =~= spec_check_urls(
                model@,
                policy.max_attempts as nat,
                page_being_checked@,
                dv.take(i + 1),
            ));
        }
        i = i + 1;
    }
    proof {
        assert(dv.take(urls@.len() as int) =~= dv);
    }
    out
}

/// Records every outcome of a batch in order, each unless its URL already
/// has one.
pub fn record_results(check_results: &mut Vec<CheckResult>, batch: Vec<CheckResult>)
    ensures
        final(check_results).deep_view() == spec_record_all(
            old(check_results).deep_view(),
            batch.deep_view(),
        ),
{
    let ghost b0 = batch.deep_view();
    let mut batch = batch;
    let ghost bv0 = batch@;
    let ghost mut k: int = 0;
    proof {
        assert(batch@ =~= bv0.skip(0));
        assert(b0.take(0) =~= Seq::<CheckModel>::empty());
    }
    while batch.len() > 0
        invariant
            0 <= k <= bv0.len(),
            b0.len() == bv0.len(),
            batch@ == bv0.skip(k),
            forall|t: int| 0 <= t < bv0.len() ==> b0[t] == bv0[t]@,
            check_results.deep_view() == spec_record_all(
                old(check_results).deep_view(),
                b0.take(k),
            ),
        decreases batch@.len(),
    {
        proof {
            assert(bv0.skip(k)[0] == bv0[k]);
        }
        let c = batch.remove(0);
        proof {
            assert(c == bv0[k]);
            assert(batch@ =~= bv0.skip(k + 1));
            assert(b0.take(k + 1).drop_last() =~= b0.take(k));
            assert(b0.take(k + 1).last() == b0[k]);
        }
        record_result(check_results, c);
        proof {
            k = k + 1;
        }
    }
    proof {
        assert(b0.take(bv0.len() as int) =~= b0);
    }
}

/// What one traversal iteration does to the state: the first pending page
/// is popped; its fetch script is played; on a healthy fetch its references
/// are classified and the whole batch validated and folded in; on a failed
/// fetch the failure is recorded; either way the page moves to the checked
/// pages.
pub open spec fn spec_step(
    m: Seq<SiteEntryModel>,
    max: nat,
    base: Seq<char>,
    s: StateModel,
) -> StateModel
    recommends
        s.to_be_checked_pages.len() > 0,
{
    let page = s.to_be_checked_pages[0];
    let rest = s.to_be_checked_pages.drop_first();
    let popped = StateModel { to_be_checked_pages: rest, ..s };
    let verdict = spec_validate(m, max, page, page);
    match spec_lookup(m, page) {
        Some(e) => if verdict is Healthy {
            let nps = spec_new_pages(base, popped, page, e.hrefs);
            let nls = spec_new_links(base, popped, page, e.hrefs);
            let batch = spec_check_urls(m, max, page, nps + nls);
            StateModel {
                to_be_checked_pages: spec_insert_new(rest, nps),
                checked_pages: s.checked_pages.push(page),
                checked_links: spec_insert_new(s.checked_links, nls),
                check_results: spec_record_all(s.check_results, batch),
            }
        } else {
            StateModel {
                to_be_checked_pages: rest,
                checked_pages: s.checked_pages.push(page),
                checked_links: s.checked_links,
                check_results: spec_record(s.check_results, verdict),
            }
        },
        None => StateModel {
            to_be_checked_pages: rest,
            checked_pages: s.checked_pages.push(page),
            checked_links: s.checked_links,
            check_results: spec_record(s.check_results, verdict),
        },
    }
}

/// Performs one traversal iteration on the live state.
pub fn check_page(model: &SiteModel, policy: &RetryPolicy, base_url: &String, state: &mut State)
    requires
        spec_policy_wf(*policy),
        spec_site_wf(model@, policy.max_attempts as nat),
        old(state)@.to_be_checked_pages.len() > 0,
    ensures
        final(state)@ == spec_step(
            model@,
            policy.max_attempts as nat,
            base_url@,
            old(state)@,
        ),
{
    let ghost s0 = old(state)@;
    let ghost max = policy.max_attempts as nat;
    let page = state.to_be_checked_pages.remove(0);
    proof {
        assert(state@.to_be_checked_pages =~= s0.to_be_checked_pages.drop_first());
        lemma_lookup_found(model@, page@, max);
    }
    match lookup(model, &page) {
        Some(e) => {
            proof {
                assert(e.deep_view().attempts.len() == e.attempts@.len());
            }
            let (_, verdict) = run_attempts(policy, &page, &page, &e.attempts);
            if !verdict.is_failed() {
                let new_pages = get_new_pages(base_url, state, &page, &e.hrefs);
                let new_links = get_new_links(base_url, state, &page, &e.hrefs);
                let batch_urls = concat_strings(&new_pages, &new_links);
                let results = check_urls(model, policy, &page, &batch_urls);
                record_results(&mut state.check_results, results);
                insert_newpages_into_tobecheckedpages(&mut state.to_be_checked_pages, &new_pages);
                insert_newlinks_into_checkedlinks(&mut state.checked_links, &new_links);
                state.checked_pages.push(page);
                proof {
                    assert(state@.checked_pages =~= s0.checked_pages.push(
                        s0.to_be_checked_pages[0],
                    ));
                }
            } else {
                record_result(&mut state.check_results, verdict);
                state.checked_pages.push(page);
                proof {
                    assert(state@.checked_pages =~= s0.checked_pages.push(
                        s0.to_be_checked_pages[0],
                    ));
                }
            }
        },
        None => {
            let verdict = CheckResult::Failed {
                url: page.clone(),
                context_page: page.clone(),
                reason: Reason::Transport(String::from_str("no response")),
            };
            record_result(&mut state.check_results, verdict);
            state.checked_pages.push(page);
            proof {
                assert(state@.checked_pages =~= s0.checked_pages.push(s0.to_be_checked_pages[0]));
            }
        },
    }
}

/// One step keeps the frontier invariants: no duplicates anywhere, nothing
/// both pending and checked, one result per URL.
pub proof fn lemma_step_preserves_inv(
    m: Seq<SiteEntryModel>,
    max: nat,
    base: Seq<char>,
    s: StateModel,
)
    requires
        spec_state_inv(s),
        s.to_be_checked_pages.len() > 0,
    ensures
        spec_state_inv(spec_step(m, max, base, s)),
{
    let page = s.to_be_checked_pages[0];
    let rest = s.to_be_checked_pages.drop_first();
    let popped = StateModel { to_be_checked_pages: rest, ..s };
    let s2 = spec_step(m, max, base, s);
    assert(s.to_be_checked_pages.contains(page));
    assert(!s.checked_pages.contains(page));
    lemma_drop_first_facts(s.to_be_checked_pages);
    lemma_push_contains_str(s.checked_pages, page);
    let checked2 = s.checked_pages.push(page);
    assert(checked2.no_duplicates()) by {
        assert forall|i: int, j: int|
            0 <= i < checked2.len() && 0 <= j < checked2.len() && i != j implies checked2[i]
            != checked2[j] by {
            if i < s.checked_pages.len() && j < s.checked_pages.len() {
                assert(checked2[i] == s.checked_pages[i] && checked2[j] == s.checked_pages[j]);
            } else if i < s.checked_pages.len() {
                assert(checked2[j] == page && checked2[i] == s.checked_pages[i]);
                assert(s.checked_pages.contains(s.checked_pages[i]));
            } else if j < s.checked_pages.len() {
                assert(checked2[i] == page && checked2[j] == s.checked_pages[j]);
                assert(s.checked_pages.contains(s.checked_pages[j]));
            }
        }
    }
    match spec_lookup(m, page) {
        Some(e) => {
            let verdict = spec_validate(m, max, page, page);
            if verdict is Healthy {
                let cands = crate::classify::spec_normalized_refs(e.hrefs, page);
                let nps = spec_new_pages(base, popped, page, e.hrefs);
                let nls = spec_new_links(base, popped, page, e.hrefs);
                lemma_select_pages_facts(cands, spec_origin(base), page, rest, s.checked_pages);
                crate::classify::lemma_select_links_facts(cands, spec_origin(base),
                    s.checked_links);
                lemma_insert_new_facts(rest, nps);
                lemma_insert_new_facts(s.checked_links, nls);
                lemma_record_all_facts(s.check_results, spec_check_urls(m, max, page, nps + nls));
                assert forall|u: Seq<char>|
                    s2.to_be_checked_pages.contains(u) implies !s2.checked_pages.contains(u) by {
                    if rest.contains(u) {
                        assert(s.to_be_checked_pages.contains(u));
                    } else {
                        assert(nps.contains(u));
                        assert(spec_is_page_candidate(u, spec_origin(base), page, rest,
                            s.checked_pages));
                    }
                }
            } else {
                lemma_record_facts(s.check_results, verdict);
                assert forall|u: Seq<char>|
                    s2.to_be_checked_pages.contains(u) implies !s2.checked_pages.contains(u) by {
                    assert(s.to_be_checked_pages.contains(u));
                }
            }
        },
        None => {
            let verdict = spec_validate(m, max, page, page);
            lemma_record_facts(s.check_results, verdict);
            assert forall|u: Seq<char>|
                s2.to_be_checked_pages.contains(u) implies !s2.checked_pages.contains(u) by {
                assert(s.to_be_checked_pages.contains(u));
            }
        },
    }
}

/// How many entries of the scripted site have not been visited yet: the
/// termination measure of the traversal.
pub open spec fn spec_unvisited_count(m: Seq<SiteEntryModel>, visited: Seq<Seq<char>>) -> nat
    decreases m.len(),
{
    if m.len() == 0 {
        0
    } else if visited.contains(m[0].url) {
        spec_unvisited_count(m.drop_first(), visited)
    } else {
        1 + spec_unvisited_count(m.drop_first(), visited)
    }
}

/// Visiting one more page never raises the count; visiting a page of the
/// site for the first time strictly lowers it; visiting a page the site
/// does not answer leaves it unchanged.
pub proof fn lemma_unvisited_push(m: Seq<SiteEntryModel>, visited: Seq<Seq<char>>, u: Seq<char>)
    ensures
        spec_unvisited_count(m, visited.push(u)) <= spec_unvisited_count(m, visited),
        spec_lookup(m, u) is Some && !visited.contains(u) ==> spec_unvisited_count(
            m,
            visited.push(u),
        ) < spec_unvisited_count(m, visited),
        spec_lookup(m, u) is None ==> spec_unvisited_count(m, visited.push(u))
            == spec_unvisited_count(m, visited),
    decreases m.len(),
{
    lemma_push_contains_str(visited, u);
    if m.len() > 0 {
        let rest = m.drop_first();
        lemma_unvisited_push(rest, visited, u);
        if m[0].url == u {
            assert(visited.push(u).contains(m[0].url));
        }
    }
}

/// The state after `n` traversal iterations from `s`.
pub open spec fn spec_run(
    m: Seq<SiteEntryModel>,
    max: nat,
    base: Seq<char>,
    s: StateModel,
    n: nat,
) -> StateModel
    decreases n,
{
    if n == 0 {
        s
    } else {
        spec_step(m, max, base, spec_run(m, max, base, s, (n - 1) as nat))
    }
}

/// Crawls until no page is pending. The loop provably terminates on any
/// finite scripted site, cycles included: each iteration either visits an
/// answering page for the first time or shortens the pending queue, and a
/// page, once checked, is never re-enqueued.
pub fn check_pages(model: &SiteModel, policy: &RetryPolicy, base_url: &String, state: &mut State)
    requires
        spec_policy_wf(*policy),
        spec_site_wf(model@, policy.max_attempts as nat),
        spec_state_inv(old(state)@),
    ensures
        final(state)@.to_be_checked_pages.len() == 0,
        spec_state_inv(final(state)@),
        exists|n: nat|
            final(state)@ == spec_run(
                model@,
                policy.max_attempts as nat,
                base_url@,
                old(state)@,
                n,
            ),
{
    let ghost init = state@;
    let ghost mut steps: nat = 0;
    while state.to_be_checked_pages.len() > 0
        invariant
            spec_policy_wf(*policy),
            spec_site_wf(model@, policy.max_attempts as nat),
            spec_state_inv(state@),
            state@ == spec_run(model@, policy.max_attempts as nat, base_url@, init, steps),
        decreases spec_unvisited_count(model@, state@.checked_pages),
            state@.to_be_checked_pages.len(),
    {
        let ghost s0 = state@;
        let ghost page = s0.to_be_checked_pages[0];
        check_page(model, policy, base_url, state);
        proof {
            let max = policy.max_attempts as nat;
            lemma_step_preserves_inv(model@, max, base_url@, s0);
            steps = steps + 1;
            assert(state@ == spec_run(model@, max, base_url@, init, steps));
            assert(s0.to_be_checked_pages.contains(page));
            assert(!s0.checked_pages.contains(page));
            assert(state@.checked_pages == s0.checked_pages.push(page));
            lemma_unvisited_push(model@, s0.checked_pages, page);
        }
    }
    proof {
        assert(state@ == spec_run(model@, policy.max_attempts as nat, base_url@, init, steps));
    }
}

/// The frontier a crawl starts from: the root URL alone, slash-stripped,
/// pending.
pub open spec fn spec_init_state(base: Seq<char>) -> StateModel {
    StateModel {
        to_be_checked_pages: seq![spec_strip_slash(base)],
        checked_pages: Seq::empty(),
        checked_links: Seq::empty(),
        check_results: Seq::empty(),
    }
}

/// Runs a whole crawl of the scripted site from `base_url`: the returned
/// state is exactly what the traversal iterations produce from the initial
/// frontier, its pending queue is empty, and the frontier invariants hold.
pub fn run_crawl(model: &SiteModel, policy: &RetryPolicy, base_url: &String) -> (r: State)
    requires
        spec_policy_wf(*policy),
        spec_site_wf(model@, policy.max_attempts as nat),
    ensures
        spec_state_inv(r@),
        r@.to_be_checked_pages.len() == 0,
        exists|n: nat|
            r@ == spec_run(
                model@,
                policy.max_attempts as nat,
                base_url@,
                spec_init_state(base_url@),
                n,
            ),
{
    let mut state = State::new();
    let root = strip_trailing_slash(base_url.as_str());
    state.to_be_checked_pages.push(root);
    proof {
        assert(state@.to_be_checked_pages =~= seq![spec_strip_slash(base_url@)]);
        assert(state@ == spec_init_state(base_url@));
        assert(spec_state_inv(state@));
    }
    check_pages(model, policy, base_url, &mut state);
    state
}

proof fn lemma_prefix_transitive<A>(a: Seq<A>, b: Seq<A>, c: Seq<A>)
    requires
        a.is_prefix_of(b),
        b.is_prefix_of(c),
    ensures
        a.is_prefix_of(c),
{
    assert forall|t: int| 0 <= t < a.len() implies c[t] == a[t] by {
        assert(b.subrange(0, a.len() as int)[t] == b[t]);
        assert(c.subrange(0, b.len() as int)[t] == c[t]);
    }
    assert(a =~= c.subrange(0, a.len() as int));
}

/// One step never unchecks a page, drops a link, or rewrites a result: the
/// checked pages, the checked links and the results of the step's outcome
/// extend those of its input, in place.
pub proof fn lemma_step_monotone(m: Seq<SiteEntryModel>, max: nat, base: Seq<char>, s: StateModel)
    ensures
        s.checked_pages.is_prefix_of(spec_step(m, max, base, s).checked_pages),
        s.checked_links.is_prefix_of(spec_step(m, max, base, s).checked_links),
        s.check_results.is_prefix_of(spec_step(m, max, base, s).check_results),
{
    let page = s.to_be_checked_pages[0];
    let rest = s.to_be_checked_pages.drop_first();
    let popped = StateModel { to_be_checked_pages: rest, ..s };
    let s2 = spec_step(m, max, base, s);
    assert(s.checked_pages.is_prefix_of(s.checked_pages.push(page))) by {
        assert(s.checked_pages =~= s.checked_pages.push(page).subrange(
            0,
            s.checked_pages.len() as int,
        ));
    }
    assert(s.checked_links.is_prefix_of(s.checked_links)) by {
        assert(s.checked_links =~= s.checked_links.subrange(0, s.checked_links.len() as int));
    }
    match spec_lookup(m, page) {
        Some(e) => {
            let verdict = spec_validate(m, max, page, page);
            if verdict is Healthy {
                let nls = spec_new_links(base, popped, page, e.hrefs);
                let nps = spec_new_pages(base, popped, page, e.hrefs);
                lemma_insert_new_facts(s.checked_links, nls);
                lemma_record_all_facts(s.check_results, spec_check_urls(m, max, page, nps + nls));
            } else {
                lemma_record_facts(s.check_results, verdict);
            }
        },
        None => {
            lemma_record_facts(s.check_results, spec_validate(m, max, page, page));
        },
    }
}

/// Over any number of steps, the checked pages, the checked links and the
/// results only ever grow: what a run has recorded, it keeps, in place.
pub proof fn lemma_run_monotone(
    m: Seq<SiteEntryModel>,
    max: nat,
    base: Seq<char>,
    s: StateModel,
    n: nat,
)
    ensures
        s.checked_pages.is_prefix_of(spec_run(m, max, base, s, n).checked_pages),
        s.checked_links.is_prefix_of(spec_run(m, max, base, s, n).checked_links),
        s.check_results.is_prefix_of(spec_run(m, max, base, s, n).check_results),
    decreases n,
{
    if n == 0 {
        assert(s.checked_pages =~= s.checked_pages.subrange(0, s.checked_pages.len() as int));
        assert(s.checked_links =~= s.checked_links.subrange(0, s.checked_links.len() as int));
        assert(s.check_results =~= s.check_results.subrange(0, s.check_results.len() as int));
    } else {
        let mid = spec_run(m, max, base, s, (n - 1) as nat);
        lemma_run_monotone(m, max, base, s, (n - 1) as nat);
        lemma_step_monotone(m, max, base, mid);
        lemma_prefix_transitive(s.checked_pages, mid.checked_pages,
            spec_run(m, max, base, s, n).checked_pages);
        lemma_prefix_transitive(s.checked_links, mid.checked_links,
            spec_run(m, max, base, s, n).checked_links);
        lemma_prefix_transitive(s.check_results, mid.check_results,
            spec_run(m, max, base, s, n).check_results);
    }
}

} // verus!
