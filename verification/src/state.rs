//! The frontier state of a crawl: the pages still to be checked, the pages
//! and external links already checked, and the accumulated check results.
//!
//! The three URL collections have set semantics — no duplicates, membership
//! is what matters — but the pending pages keep insertion order, so the
//! traversal visits them first-in, first-out. A check result is recorded at
//! most once per distinct URL, and the result set only ever grows.

use vstd::prelude::*;

verus! {

use crate::result::{CheckResult, CheckModel, spec_result_url};
use crate::text::vec_contains_string;

/// The four sets the traversal owns. No concurrent task touches them; the
/// single control loop folds each batch of results in before popping the
/// next page.
pub struct State {
    /// Pages discovered but not yet crawled, oldest first.
    pub to_be_checked_pages: Vec<String>,
    /// Pages already crawled; never re-enqueued.
    pub checked_pages: Vec<String>,
    /// External links already validated; never re-checked.
    pub checked_links: Vec<String>,
    /// One outcome per distinct validated URL.
    pub check_results: Vec<CheckResult>,
}

/// The mathematical shape of a [`State`].
pub struct StateModel {
    pub to_be_checked_pages: Seq<Seq<char>>,
    pub checked_pages: Seq<Seq<char>>,
    pub checked_links: Seq<Seq<char>>,
    pub check_results: Seq<CheckModel>,
}

impl View for State {
    type V = StateModel;

    open spec fn view(&self) -> StateModel {
        StateModel {
            to_be_checked_pages: self.to_be_checked_pages.deep_view(),
            checked_pages: self.checked_pages.deep_view(),
            checked_links: self.checked_links.deep_view(),
            check_results: self.check_results.deep_view(),
        }
    }
}

/// The URLs the results are about, in recording order.
pub open spec fn spec_result_urls(rs: Seq<CheckModel>) -> Seq<Seq<char>> {
    rs.map_values(|c: CheckModel| spec_result_url(c))
}

/// The frontier invariants: each collection is duplicate-free, no pending
/// page has already been checked, and no URL has two results.
pub open spec fn spec_state_inv(s: StateModel) -> bool {
    &&& s.to_be_checked_pages.no_duplicates()
    &&& s.checked_pages.no_duplicates()
    &&& s.checked_links.no_duplicates()
    &&& forall|u: Seq<char>|
        s.to_be_checked_pages.contains(u) ==> !s.checked_pages.contains(u)
    &&& spec_result_urls(s.check_results).no_duplicates()
}

impl State {
    /// The empty frontier.
    pub fn new() -> (s: State)
        ensures
            s@.to_be_checked_pages == Seq::<Seq<char>>::empty(),
            s@.checked_pages == Seq::<Seq<char>>::empty(),
            s@.checked_links == Seq::<Seq<char>>::empty(),
            s@.check_results == Seq::<CheckModel>::empty(),
            spec_state_inv(s@),
    {
        let s = State {
            to_be_checked_pages: Vec::new(),
            checked_pages: Vec::new(),
            checked_links: Vec::new(),
            check_results: Vec::new(),
        };
        proof {
            assert(s@.to_be_checked_pages =~= Seq::<Seq<char>>::empty());
            assert(s@.checked_pages =~= Seq::<Seq<char>>::empty());
            assert(s@.checked_links =~= Seq::<Seq<char>>::empty());
            assert(s@.check_results =~= Seq::<CheckModel>::empty());
            assert(spec_result_urls(s@.check_results) =~= Seq::<Seq<char>>::empty());
        }
        s
    }
}

/// `target` with each element of `items` appended in turn, unless already
/// present: set-insertion that keeps first-insertion order.
pub open spec fn spec_insert_new(target: Seq<Seq<char>>, items: Seq<Seq<char>>) -> Seq<Seq<char>>
    decreases items.len(),
{
    if items.len() == 0 {
        target
    } else {
        let prev = spec_insert_new(target, items.drop_last());
        if prev.contains(items.last()) {
            prev
        } else {
            prev.push(items.last())
        }
    }
}

/// What set-insertion does: the old elements stay in place, the members are
/// the union, and freedom from duplicates is preserved.
pub proof fn lemma_insert_new_facts(target: Seq<Seq<char>>, items: Seq<Seq<char>>)
    ensures
        target.is_prefix_of(spec_insert_new(target, items)),
        forall|u: Seq<char>|
            spec_insert_new(target, items).contains(u) <==> target.contains(u) || items.contains(
                u,
            ),
        target.no_duplicates() ==> spec_insert_new(target, items).no_duplicates(),
    decreases items.len(),
{
    if items.len() == 0 {
        assert(target.is_prefix_of(target)) by {
            assert(target =~= target.subrange(0, target.len() as int));
        }
    } else {
        lemma_insert_new_facts(target, items.drop_last());
        let prev = spec_insert_new(target, items.drop_last());
        let last = items.last();
        let whole = spec_insert_new(target, items);
        if !prev.contains(last) {
            assert(prev.is_prefix_of(whole)) by {
                assert(prev =~= whole.subrange(0, prev.len() as int));
            }
            assert(target.is_prefix_of(whole)) by {
                assert(target =~= whole.subrange(0, target.len() as int));
            }
        }
        assert forall|u: Seq<char>| whole.contains(u) implies target.contains(u)
            || items.contains(u) by {
            if prev.contains(u) {
                if items.drop_last().contains(u) {
                    let i = choose|i: int|
                        0 <= i < items.drop_last().len() && items.drop_last()[i] == u;
                    assert(items[i] == u);
                }
            } else {
                let j = choose|j: int| 0 <= j < whole.len() && whole[j] == u;
                assert(j == prev.len());
                assert(u == last);
                assert(items[items.len() - 1] == u);
            }
        }
        assert forall|u: Seq<char>| target.contains(u) || items.contains(u) implies whole.contains(
            u,
        ) by {
            if items.contains(u) {
                let i = choose|i: int| 0 <= i < items.len() && items[i] == u;
                if i < items.len() - 1 {
                    assert(items.drop_last()[i] == u);
                    assert(items.drop_last().contains(u));
                }
            }
            if prev.contains(u) {
                let j = choose|j: int| 0 <= j < prev.len() && prev[j] == u;
                if !prev.contains(last) {
                    assert(whole[j] == u);
                }
            } else {
                assert(u == last);
                if !prev.contains(last) {
                    assert(whole[prev.len() as int] == u);
                }
            }
        }
        if target.no_duplicates() && !prev.contains(last) {
            assert forall|i: int, j: int|
                0 <= i < whole.len() && 0 <= j < whole.len() && i != j implies whole[i]
                != whole[j] by {
                if i < prev.len() && j < prev.len() {
                    assert(whole[i] == prev[i] && whole[j] == prev[j]);
                } else if i < prev.len() {
                    assert(whole[j] == last && whole[i] == prev[i]);
                    assert(prev.contains(prev[i]));
                } else {
                    assert(whole[i] == last && whole[j] == prev[j]);
                    assert(prev.contains(prev[j]));
                }
            }
        }
    }
}

fn insert_new_exec(target: &mut Vec<String>, items: &Vec<String>)
    ensures
        final(target).deep_view() == spec_insert_new(old(target).deep_view(), items.deep_view()),
{
    let ghost t0 = old(target).deep_view();
    let mut i: usize = 0;
    while i < items.len()
        invariant
            i <= items@.len(),
            target.deep_view() == spec_insert_new(t0, items.deep_view().take(i as int)),
        decreases items@.len() - i,
    {
        proof {
            assert(items.deep_view().take(i + 1).drop_last() =~= items.deep_view().take(i as int));
            assert(items.deep_view().take(i + 1).last() == items.deep_view()[i as int]);
            assert(items.deep_view()[i as int] == items@[i as int]@);
        }
        if !vec_contains_string(target, &items[i]) {
            target.push(items[i].clone());
            proof {
                assert(target.deep_view() =~= spec_insert_new(
                    t0,
                    items.deep_view().take(i + 1),
                ));
            }
        }
        i = i + 1;
    }
    proof {
        assert(items.deep_view().take(items@.len() as int) =~= items.deep_view());
    }
}

/// Folds the newly discovered pages into the pages still to be checked,
/// skipping any already pending.
pub fn insert_newpages_into_tobecheckedpages(to_be_checked_pages: &mut Vec<String>, new_pages: &Vec<String>)
    ensures
        final(to_be_checked_pages).deep_view() == spec_insert_new(
            old(to_be_checked_pages).deep_view(),
            new_pages.deep_view(),
        ),
{
    insert_new_exec(to_be_checked_pages, new_pages);
}

/// Folds the newly discovered external links into the checked links,
/// skipping any already recorded.
pub fn insert_newlinks_into_checkedlinks(checked_links: &mut Vec<String>, new_links: &Vec<String>)
    ensures
        final(checked_links).deep_view() == spec_insert_new(
            old(checked_links).deep_view(),
            new_links.deep_view(),
        ),
{
    insert_new_exec(checked_links, new_links);
}

/// `rs` with `c` appended, unless some result for the same URL is already
/// recorded: results are created once per distinct validated URL.
pub open spec fn spec_record(rs: Seq<CheckModel>, c: CheckModel) -> Seq<CheckModel> {
    if spec_result_urls(rs).contains(spec_result_url(c)) {
        rs
    } else {
        rs.push(c)
    }
}

/// `rs` with each of `batch` recorded in turn.
pub open spec fn spec_record_all(rs: Seq<CheckModel>, batch: Seq<CheckModel>) -> Seq<CheckModel>
    decreases batch.len(),
{
    if batch.len() == 0 {
        rs
    } else {
        spec_record(spec_record_all(rs, batch.drop_last()), batch.last())
    }
}

/// Recording results never rewrites or drops what is already recorded, and
/// never records a URL twice.
pub proof fn lemma_record_facts(rs: Seq<CheckModel>, c: CheckModel)
    ensures
        rs.is_prefix_of(spec_record(rs, c)),
        spec_result_urls(rs).no_duplicates() ==> spec_result_urls(
            spec_record(rs, c),
        ).no_duplicates(),
        forall|u: Seq<char>|
            spec_result_urls(spec_record(rs, c)).contains(u) <==> spec_result_urls(rs).contains(u)
                || u == spec_result_url(c),
{
    let whole = spec_record(rs, c);
    assert(rs.is_prefix_of(whole)) by {
        assert(rs =~= whole.subrange(0, rs.len() as int));
    }
    if !spec_result_urls(rs).contains(spec_result_url(c)) {
        assert(spec_result_urls(whole) =~= spec_result_urls(rs).push(spec_result_url(c)));
        assert forall|u: Seq<char>| spec_result_urls(whole).contains(u) implies spec_result_urls(
            rs,
        ).contains(u) || u == spec_result_url(c) by {
            let j = choose|j: int|
                0 <= j < spec_result_urls(whole).len() && spec_result_urls(whole)[j] == u;
            if j < rs.len() {
                assert(spec_result_urls(rs)[j] == u);
            }
        }
        assert forall|u: Seq<char>|
            spec_result_urls(rs).contains(u) || u == spec_result_url(
                c,
            ) implies spec_result_urls(whole).contains(u) by {
            if spec_result_urls(rs).contains(u) {
                let j = choose|j: int|
                    0 <= j < spec_result_urls(rs).len() && spec_result_urls(rs)[j] == u;
                assert(spec_result_urls(whole)[j] == u);
            } else {
                assert(spec_result_urls(whole)[rs.len() as int] == u);
            }
        }
        if spec_result_urls(rs).no_duplicates() {
            assert forall|i: int, j: int|
                0 <= i < spec_result_urls(whole).len() && 0 <= j < spec_result_urls(whole).len()
                    && i != j implies spec_result_urls(whole)[i] != spec_result_urls(whole)[j] by {
                if i < rs.len() && j < rs.len() {
                } else if i < rs.len() {
                    assert(spec_result_urls(rs).contains(spec_result_urls(rs)[i]));
                } else if j < rs.len() {
                    assert(spec_result_urls(rs).contains(spec_result_urls(rs)[j]));
                }
            }
        }
    }
}

/// True iff some recorded result is about `url`.
pub fn results_contain_url(check_results: &Vec<CheckResult>, url: &String) -> (r: bool)
    ensures
        r == spec_result_urls(check_results.deep_view()).contains(url@),
{
    let ghost urls = spec_result_urls(check_results.deep_view());
    let mut i: usize = 0;
    while i < check_results.len()
        invariant
            i <= check_results@.len(),
            urls == spec_result_urls(check_results.deep_view()),
            forall|j: int| 0 <= j < i ==> urls[j] != url@,
        decreases check_results@.len() - i,
    {
        proof {
            assert(check_results.deep_view()[i as int] == check_results@[i as int]@);
            assert(urls[i as int] == spec_result_url(check_results.deep_view()[i as int]));
        }
        if check_results[i].url().eq(url) {
            proof {
                assert(urls[i as int] == url@);
            }
            return true;
        }
        i = i + 1;
    }
    false
}

/// Records one check outcome, unless its URL already has one.
pub fn record_result(check_results: &mut Vec<CheckResult>, c: CheckResult)
    ensures
        final(check_results).deep_view() == spec_record(old(check_results).deep_view(), c@),
{
    let ghost r0 = old(check_results).deep_view();
    let present = results_contain_url(check_results, c.url());
    if !present {
        check_results.push(c);
        proof {
            assert(check_results.deep_view() =~= r0.push(c@));
        }
    }
}

/// Appending one element adds exactly that element to the members.
pub proof fn lemma_push_contains_str(s: Seq<Seq<char>>, u: Seq<char>)
    ensures
        forall|x: Seq<char>| s.push(u).contains(x) <==> s.contains(x) || x == u,
{
    assert forall|x: Seq<char>| s.push(u).contains(x) implies s.contains(x) || x == u by {
        let j = choose|j: int| 0 <= j < s.push(u).len() && s.push(u)[j] == x;
        if j < s.len() {
            assert(s[j] == x);
        }
    }
    assert forall|x: Seq<char>| s.contains(x) || x == u implies s.push(u).contains(x) by {
        if s.contains(x) {
            let j = choose|j: int| 0 <= j < s.len() && s[j] == x;
            assert(s.push(u)[j] == x);
        } else {
            assert(s.push(u)[s.len() as int] == x);
        }
    }
}

/// Dropping the head keeps a subset of the members; on a duplicate-free
/// sequence the head is gone for good.
pub proof fn lemma_drop_first_facts(s: Seq<Seq<char>>)
    requires
        s.len() > 0,
    ensures
        forall|x: Seq<char>| s.drop_first().contains(x) ==> s.contains(x),
        s.no_duplicates() ==> s.drop_first().no_duplicates(),
        s.no_duplicates() ==> !s.drop_first().contains(s[0]),
{
    let rest = s.drop_first();
    assert forall|x: Seq<char>| rest.contains(x) implies s.contains(x) by {
        let j = choose|j: int| 0 <= j < rest.len() && rest[j] == x;
        assert(s[j + 1] == x);
    }
    if s.no_duplicates() {
        assert forall|i: int, j: int|
            0 <= i < rest.len() && 0 <= j < rest.len() && i != j implies rest[i] != rest[j] by {
            assert(rest[i] == s[i + 1] && rest[j] == s[j + 1]);
        }
        if rest.contains(s[0]) {
            let j = choose|j: int| 0 <= j < rest.len() && rest[j] == s[0];
            assert(s[j + 1] == s[0]);
        }
    }
}

/// Recording a whole batch keeps what was recorded before, in place, and
/// never records a URL twice.
pub proof fn lemma_record_all_facts(rs: Seq<CheckModel>, batch: Seq<CheckModel>)
    ensures
        rs.is_prefix_of(spec_record_all(rs, batch)),
        spec_result_urls(rs).no_duplicates() ==> spec_result_urls(
            spec_record_all(rs, batch),
        ).no_duplicates(),
    decreases batch.len(),
{
    if batch.len() == 0 {
        assert(rs.is_prefix_of(rs)) by {
            assert(rs =~= rs.subrange(0, rs.len() as int));
        }
    } else {
        lemma_record_all_facts(rs, batch.drop_last());
        let mid = spec_record_all(rs, batch.drop_last());
        lemma_record_facts(mid, batch.last());
        let whole = spec_record_all(rs, batch);
        assert(rs.is_prefix_of(whole)) by {
            assert forall|t: int| 0 <= t < rs.len() implies whole[t] == rs[t] by {
                assert(mid.subrange(0, rs.len() as int)[t] == mid[t]);
                assert(whole.subrange(0, mid.len() as int)[t] == whole[t]);
            }
            assert(rs =~= whole.subrange(0, rs.len() as int));
        }
    }
}

} // verus!
