//! The classifier: partitions the references extracted from one page into
//! new internal pages and new external links, deduplicated within the batch
//! and against everything the crawl has already seen.
//!
//! A normalized reference is a page candidate when it starts with the site's
//! own origin or carries no scheme delimiter at all, is non-empty, is not
//! the page being processed, and has not been seen as a page before. It is a
//! link candidate when it starts with an HTTP or HTTPS scheme, does not
//! start with the site's origin, and has not been checked as a link before.
//! Anything else — `mailto:`, `javascript:`, empty anchors, malformed
//! references — is silently discarded.

use vstd::prelude::*;

verus! {

use crate::norm::{spec_normalize, spec_origin, normalize, site_origin};
use crate::state::{State, StateModel};
use crate::text::{str_starts_with, str_contains_char, vec_contains_string};

/// True iff `u` starts with `http://` or `https://`.
pub open spec fn spec_has_http_scheme(u: Seq<char>) -> bool {
    "http://"@.is_prefix_of(u) || "https://"@.is_prefix_of(u)
}

/// True iff the site origin resolved and is a prefix of `u`.
pub open spec fn spec_origin_match(origin: Option<Seq<char>>, u: Seq<char>) -> bool {
    match origin {
        Some(o) => o.is_prefix_of(u),
        None => false,
    }
}

/// A normalized reference that counts as a newly discovered internal page.
pub open spec fn spec_is_page_candidate(
    u: Seq<char>,
    origin: Option<Seq<char>>,
    current_page: Seq<char>,
    pending: Seq<Seq<char>>,
    visited_pages: Seq<Seq<char>>,
) -> bool {
    &&& u.len() > 0
    &&& u != current_page
    &&& (spec_origin_match(origin, u) || !u.contains(':'))
    &&& !visited_pages.contains(u)
    &&& !pending.contains(u)
}

/// A normalized reference that counts as a newly discovered external link.
pub open spec fn spec_is_link_candidate(
    u: Seq<char>,
    origin: Option<Seq<char>>,
    visited_links: Seq<Seq<char>>,
) -> bool {
    &&& spec_has_http_scheme(u)
    &&& !spec_origin_match(origin, u)
    &&& !visited_links.contains(u)
}

/// The references of `hrefs` normalized against `page`, in order, the
/// malformed ones dropped.
pub open spec fn spec_normalized_refs(hrefs: Seq<Seq<char>>, page: Seq<char>) -> Seq<Seq<char>>
    decreases hrefs.len(),
{
    if hrefs.len() == 0 {
        Seq::empty()
    } else {
        let prev = spec_normalized_refs(hrefs.drop_last(), page);
        match spec_normalize(hrefs.last(), page) {
            Some(u) => prev.push(u),
            None => prev,
        }
    }
}

/// The page candidates among `cands`, first occurrences kept in order.
pub open spec fn spec_select_new_pages(
    cands: Seq<Seq<char>>,
    origin: Option<Seq<char>>,
    current_page: Seq<char>,
    pending: Seq<Seq<char>>,
    visited_pages: Seq<Seq<char>>,
) -> Seq<Seq<char>>
    decreases cands.len(),
{
    if cands.len() == 0 {
        Seq::empty()
    } else {
        let prev = spec_select_new_pages(cands.drop_last(), origin, current_page, pending,
            visited_pages);
        let u = cands.last();
        if spec_is_page_candidate(u, origin, current_page, pending, visited_pages)
            && !prev.contains(u) {
            prev.push(u)
        } else {
            prev
        }
    }
}

/// The link candidates among `cands`, first occurrences kept in order.
pub open spec fn spec_select_new_links(
    cands: Seq<Seq<char>>,
    origin: Option<Seq<char>>,
    visited_links: Seq<Seq<char>>,
) -> Seq<Seq<char>>
    decreases cands.len(),
{
    if cands.len() == 0 {
        Seq::empty()
    } else {
        let prev = spec_select_new_links(cands.drop_last(), origin, visited_links);
        let u = cands.last();
        if spec_is_link_candidate(u, origin, visited_links) && !prev.contains(u) {
            prev.push(u)
        } else {
            prev
        }
    }
}

/// The new internal pages discovered on `page`: its references normalized,
/// then filtered and deduplicated as page candidates.
pub open spec fn spec_new_pages(
    base: Seq<char>,
    st: StateModel,
    page: Seq<char>,
    hrefs: Seq<Seq<char>>,
) -> Seq<Seq<char>> {
    spec_select_new_pages(
        spec_normalized_refs(hrefs, page),
        spec_origin(base),
        page,
        st.to_be_checked_pages,
        st.checked_pages,
    )
}

/// The new external links discovered on `page`: its references normalized,
/// then filtered and deduplicated as link candidates.
pub open spec fn spec_new_links(
    base: Seq<char>,
    st: StateModel,
    page: Seq<char>,
    hrefs: Seq<Seq<char>>,
) -> Seq<Seq<char>> {
    spec_select_new_links(spec_normalized_refs(hrefs, page), spec_origin(base), st.checked_links)
}

fn is_page_candidate(
    u: &String,
    origin: &Option<String>,
    current_page: &String,
    pending: &Vec<String>,
    visited_pages: &Vec<String>,
) -> (r: bool)
    ensures
        r == spec_is_page_candidate(
            u@,
            origin.deep_view(),
            current_page@,
            pending.deep_view(),
            visited_pages.deep_view(),
        ),
{
    if u.as_str().unicode_len() == 0 {
        return false;
    }
    if u.eq(current_page) {
        return false;
    }
    let origin_ok = match origin {
        Some(o) => str_starts_with(u.as_str(), o.as_str()),
        None => false,
    };
    if !(origin_ok || !str_contains_char(u.as_str(), ':')) {
        return false;
    }
    !vec_contains_string(visited_pages, u) && !vec_contains_string(pending, u)
}

fn is_link_candidate(u: &String, origin: &Option<String>, visited_links: &Vec<String>) -> (r: bool)
    ensures
        r == spec_is_link_candidate(u@, origin.deep_view(), visited_links.deep_view()),
{
    if !(str_starts_with(u.as_str(), "http://") || str_starts_with(u.as_str(), "https://")) {
        return false;
    }
    let origin_ok = match origin {
        Some(o) => str_starts_with(u.as_str(), o.as_str()),
        None => false,
    };
    !origin_ok && !vec_contains_string(visited_links, u)
}

/// The new internal pages found among the references of the page being
/// checked: each reference is normalized against that page, kept when it is
/// a page candidate, and deduplicated within the batch.
pub fn get_new_pages(
    base_url: &String,
    state: &State,
    page_being_checked: &String,
    hrefs: &Vec<String>,
) -> (r: Vec<String>)
    ensures
        r.deep_view() == spec_new_pages(base_url@, state@, page_being_checked@, hrefs.deep_view()),
{
    let origin = site_origin(base_url.as_str());
    proof {
        assert(origin.deep_view() == spec_origin(base_url@));
    }
    let ghost dv = hrefs.deep_view();
    let mut out: Vec<String> = Vec::new();
    let mut i: usize = 0;
    while i < hrefs.len()
        invariant
            i <= hrefs@.len(),
            dv == hrefs.deep_view(),
            origin.deep_view() == spec_origin(base_url@),
            out.deep_view() == spec_select_new_pages(
                spec_normalized_refs(dv.take(i as int), page_being_checked@),
                spec_origin(base_url@),
                page_being_checked@,
                state@.to_be_checked_pages,
                state@.checked_pages,
            ),
        decreases hrefs@.len() - i,
    {
        proof {
            assert(dv.take(i + 1).drop_last() =~= dv.take(i as int));
            assert(dv.take(i + 1).last() == dv[i as int]);
            assert(dv[i as int] == hrefs@[i as int]@);
        }
        let normalized = normalize(hrefs[i].as_str(), page_being_checked.as_str());
        match normalized {
            Some(u) => {
                proof {
                    let cands_i = spec_normalized_refs(dv.take(i as int), page_being_checked@);
                    assert(cands_i.push(u@).drop_last() =~= cands_i);
                }
                if is_page_candidate(&u, &origin, page_being_checked, &state.to_be_checked_pages,
                    &state.checked_pages) && !vec_contains_string(&out, &u) {
                    out.push(u);
                    proof {
                        assert(out.deep_view() =~= spec_select_new_pages(
                            spec_normalized_refs(dv.take(i + 1), page_being_checked@),
                            spec_origin(base_url@),
                            page_being_checked@,
                            state@.to_be_checked_pages,
                            state@.checked_pages,
                        ));
                    }
                }
            },
            None => {},
        }
        i = i + 1;
    }
    proof {
        assert(dv.take(hrefs@.len() as int) =~= dv);
    }
    out
}

/// The new external links found among the references of the page being
/// checked: each reference is normalized against that page, kept when it is
/// a link candidate, and deduplicated within the batch.
pub fn get_new_links(
    base_url: &String,
    state: &State,
    page_being_checked: &String,
    hrefs: &Vec<String>,
) -> (r: Vec<String>)
    ensures
        r.deep_view() == spec_new_links(base_url@, state@, page_being_checked@, hrefs.deep_view()),
{
    let origin = site_origin(base_url.as_str());
    proof {
        assert(origin.deep_view() == spec_origin(base_url@));
    }
    let ghost dv = hrefs.deep_view();
    let mut out: Vec<String> = Vec::new();
    let mut i: usize = 0;
    while i < hrefs.len()
        invariant
            i <= hrefs@.len(),
            dv == hrefs.deep_view(),
            origin.deep_view() == spec_origin(base_url@),
            out.deep_view() == spec_select_new_links(
                spec_normalized_refs(dv.take(i as int), page_being_checked@),
                spec_origin(base_url@),
                state@.checked_links,
            ),
        decreases hrefs@.len() - i,
    {
        proof {
            assert(dv.take(i + 1).drop_last() =~= dv.take(i as int));
            assert(dv.take(i + 1).last() == dv[i as int]);
            assert(dv[i as int] == hrefs@[i as int]@);
        }
        let normalized = normalize(hrefs[i].as_str(), page_being_checked.as_str());
        match normalized {
            Some(u) => {
                proof {
                    let cands_i = spec_normalized_refs(dv.take(i as int), page_being_checked@);
                    assert(cands_i.push(u@).drop_last() =~= cands_i);
                }
                if is_link_candidate(&u, &origin, &state.checked_links) && !vec_contains_string(
                    &out,
                    &u,
                ) {
                    out.push(u);
                    proof {
                        assert(out.deep_view() =~= spec_select_new_links(
                            spec_normalized_refs(dv.take(i + 1), page_being_checked@),
                            spec_origin(base_url@),
                            state@.checked_links,
                        ));
                    }
                }
            },
            None => {},
        }
        i = i + 1;
    }
    proof {
        assert(dv.take(hrefs@.len() as int) =~= dv);
    }
    out
}

/// Every selected page is a page candidate drawn from the input, and the
/// selection is duplicate-free.
pub proof fn lemma_select_pages_facts(
    cands: Seq<Seq<char>>,
    origin: Option<Seq<char>>,
    current_page: Seq<char>,
    pending: Seq<Seq<char>>,
    visited_pages: Seq<Seq<char>>,
)
    ensures
        forall|u: Seq<char>|
            #[trigger] spec_select_new_pages(cands, origin, current_page, pending,
                visited_pages).contains(u) ==> spec_is_page_candidate(u, origin, current_page,
                pending, visited_pages) && cands.contains(u),
        spec_select_new_pages(cands, origin, current_page, pending, visited_pages).no_duplicates(),
    decreases cands.len(),
{
    if cands.len() > 0 {
        lemma_select_pages_facts(cands.drop_last(), origin, current_page, pending, visited_pages);
        let prev = spec_select_new_pages(cands.drop_last(), origin, current_page, pending,
            visited_pages);
        let whole = spec_select_new_pages(cands, origin, current_page, pending, visited_pages);
        let last = cands.last();
        assert forall|u: Seq<char>| whole.contains(u) implies spec_is_page_candidate(
            u,
            origin,
            current_page,
            pending,
            visited_pages,
        ) && cands.contains(u) by {
            if prev.contains(u) {
                let i = choose|i: int|
                    0 <= i < cands.drop_last().len() && cands.drop_last()[i] == u;
                assert(cands[i] == u);
            } else {
                let j = choose|j: int| 0 <= j < whole.len() && whole[j] == u;
                assert(j == prev.len());
                assert(u == last);
                assert(cands[cands.len() - 1] == u);
            }
        }
        if whole != prev {
            assert forall|i: int, j: int|
                0 <= i < whole.len() && 0 <= j < whole.len() && i != j implies whole[i]
                != whole[j] by {
                if i < prev.len() && j < prev.len() {
                    assert(whole[i] == prev[i] && whole[j] == prev[j]);
                } else if i < prev.len() {
                    assert(whole[j] == last && whole[i] == prev[i]);
                    assert(prev.contains(prev[i]));
                } else if j < prev.len() {
                    assert(whole[i] == last && whole[j] == prev[j]);
                    assert(prev.contains(prev[j]));
                }
            }
        }
    }
}

/// Every selected link is a link candidate drawn from the input, and the
/// selection is duplicate-free.
pub proof fn lemma_select_links_facts(
    cands: Seq<Seq<char>>,
    origin: Option<Seq<char>>,
    visited_links: Seq<Seq<char>>,
)
    ensures
        forall|u: Seq<char>|
            #[trigger] spec_select_new_links(cands, origin, visited_links).contains(u)
                ==> spec_is_link_candidate(u, origin, visited_links) && cands.contains(u),
        spec_select_new_links(cands, origin, visited_links).no_duplicates(),
    decreases cands.len(),
{
    if cands.len() > 0 {
        lemma_select_links_facts(cands.drop_last(), origin, visited_links);
        let prev = spec_select_new_links(cands.drop_last(), origin, visited_links);
        let whole = spec_select_new_links(cands, origin, visited_links);
        let last = cands.last();
        assert forall|u: Seq<char>| whole.contains(u) implies spec_is_link_candidate(
            u,
            origin,
            visited_links,
        ) && cands.contains(u) by {
            if prev.contains(u) {
                let i = choose|i: int|
                    0 <= i < cands.drop_last().len() && cands.drop_last()[i] == u;
                assert(cands[i] == u);
            } else {
                let j = choose|j: int| 0 <= j < whole.len() && whole[j] == u;
                assert(j == prev.len());
                assert(u == last);
                assert(cands[cands.len() - 1] == u);
            }
        }
        if whole != prev {
            assert forall|i: int, j: int|
                0 <= i < whole.len() && 0 <= j < whole.len() && i != j implies whole[i]
                != whole[j] by {
                if i < prev.len() && j < prev.len() {
                    assert(whole[i] == prev[i] && whole[j] == prev[j]);
                } else if i < prev.len() {
                    assert(whole[j] == last && whole[i] == prev[i]);
                    assert(prev.contains(prev[i]));
                } else if j < prev.len() {
                    assert(whole[i] == last && whole[j] == prev[j]);
                    assert(prev.contains(prev[j]));
                }
            }
        }
    }
}

/// A URL that starts with an HTTP or HTTPS scheme contains a `:`.
pub proof fn lemma_scheme_has_colon(u: Seq<char>)
    requires
        spec_has_http_scheme(u),
    ensures
        u.contains(':'),
{
    reveal_strlit("http://");
    reveal_strlit("https://");
    if "http://"@.is_prefix_of(u) {
        assert(u.subrange(0, 7)[4] == u[4]);
        assert(u[4] == ':');
    } else {
        assert(u.subrange(0, 8)[5] == u[5]);
        assert(u[5] == ':');
    }
}

/// Classification is idempotent: a reference already pending, already
/// checked as a page, or already checked as a link is never re-added to the
/// corresponding "new" set.
pub proof fn lemma_classification_idempotent(
    base: Seq<char>,
    st: StateModel,
    page: Seq<char>,
    hrefs: Seq<Seq<char>>,
    u: Seq<char>,
)
    ensures
        st.checked_pages.contains(u) || st.to_be_checked_pages.contains(u) ==> !spec_new_pages(
            base,
            st,
            page,
            hrefs,
        ).contains(u),
        st.checked_links.contains(u) ==> !spec_new_links(base, st, page, hrefs).contains(u),
{
    let cands = spec_normalized_refs(hrefs, page);
    lemma_select_pages_facts(cands, spec_origin(base), page, st.to_be_checked_pages,
        st.checked_pages);
    lemma_select_links_facts(cands, spec_origin(base), st.checked_links);
}

/// The batch partition is disjoint: no URL is both a new page and a new
/// link, no new page was pending or already checked, and no new link was
/// already checked.
pub proof fn lemma_partition_disjoint(
    base: Seq<char>,
    st: StateModel,
    page: Seq<char>,
    hrefs: Seq<Seq<char>>,
)
    ensures
        forall|u: Seq<char>|
            spec_new_pages(base, st, page, hrefs).contains(u) ==> !spec_new_links(
                base,
                st,
                page,
                hrefs,
            ).contains(u),
        forall|u: Seq<char>|
            spec_new_pages(base, st, page, hrefs).contains(u) ==> !st.checked_pages.contains(u)
                && !st.to_be_checked_pages.contains(u),
        forall|u: Seq<char>|
            spec_new_links(base, st, page, hrefs).contains(u) ==> !st.checked_links.contains(u),
{
    let cands = spec_normalized_refs(hrefs, page);
    let origin = spec_origin(base);
    lemma_select_pages_facts(cands, origin, page, st.to_be_checked_pages, st.checked_pages);
    lemma_select_links_facts(cands, origin, st.checked_links);
    assert forall|u: Seq<char>|
        spec_new_pages(base, st, page, hrefs).contains(u) implies !spec_new_links(
        base,
        st,
        page,
        hrefs,
    ).contains(u) by {
        if spec_new_links(base, st, page, hrefs).contains(u) {
            assert(spec_is_page_candidate(u, origin, page, st.to_be_checked_pages,
                st.checked_pages));
            assert(spec_is_link_candidate(u, origin, st.checked_links));
            if !spec_origin_match(origin, u) {
                lemma_scheme_has_colon(u);
            }
        }
    }
}

} // verus!
