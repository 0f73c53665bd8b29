//! The reporter: turns the final crawl state into counts, rendered failure
//! lines, and the overall success verdict that decides the process exit
//! status.

use vstd::prelude::*;

verus! {

use vstd::string::StringExecFns;
use crate::result::{CheckResult, CheckModel, Reason, ReasonModel};
use crate::state::State;
use crate::text::{u16_to_decimal, spec_decimal};

/// The broken results among `rs`, in recording order.
pub open spec fn spec_failures(rs: Seq<CheckModel>) -> Seq<CheckModel>
    decreases rs.len(),
{
    if rs.len() == 0 {
        Seq::empty()
    } else {
        let prev = spec_failures(rs.drop_last());
        if rs.last() is Failed {
            prev.push(rs.last())
        } else {
            prev
        }
    }
}

/// A crawl succeeded iff it recorded no broken URL.
pub open spec fn spec_success(rs: Seq<CheckModel>) -> bool {
    spec_failures(rs).len() == 0
}

/// Success means exactly that every recorded outcome is healthy.
pub proof fn lemma_success_iff_no_failed(rs: Seq<CheckModel>)
    ensures
        spec_success(rs) <==> forall|i: int| 0 <= i < rs.len() ==> !((#[trigger] rs[i]) is Failed),
    decreases rs.len(),
{
    if rs.len() > 0 {
        lemma_success_iff_no_failed(rs.drop_last());
        assert forall|i: int| 0 <= i < rs.len() - 1 implies rs.drop_last()[i] == rs[i] by {}
        if spec_success(rs) {
            assert forall|i: int| 0 <= i < rs.len() implies !((#[trigger] rs[i]) is Failed) by {
                if i < rs.len() - 1 {
                    assert(rs.drop_last()[i] == rs[i]);
                }
            }
        }
    }
}

/// The line a broken URL is reported with: the URL, the page that
/// referenced it, and the status or transport error.
pub open spec fn spec_render_failure(c: CheckModel) -> Seq<char>
    recommends
        c is Failed,
{
    match c {
        CheckModel::Failed { url, context_page, reason } => match reason {
            ReasonModel::Status(s) => url + " on "@ + context_page + " gave status "@
                + spec_decimal(s as nat),
            ReasonModel::Transport(m) => url + " on "@ + context_page + " gave error "@ + m,
        },
        CheckModel::Healthy { url } => url,
    }
}

/// Renders one check outcome as a report line.
pub fn render_failure(c: &CheckResult) -> (r: String)
    ensures
        r@ == spec_render_failure(c@),
{
    match c {
        CheckResult::Failed { url, context_page, reason } => {
            let mut out = url.clone();
            out.append(" on ");
            out.append(context_page.as_str());
            match reason {
                Reason::Status(s) => {
                    out.append(" gave status ");
                    let digits = u16_to_decimal(*s);
                    out.append(digits.as_str());
                },
                Reason::Transport(m) => {
                    out.append(" gave error ");
                    out.append(m.as_str());
                },
            }
            out
        },
        CheckResult::Healthy { url } => url.clone(),
    }
}

/// The report lines of the broken results among `rs`, in recording order.
pub open spec fn spec_failure_lines(rs: Seq<CheckModel>) -> Seq<Seq<char>>
    decreases rs.len(),
{
    if rs.len() == 0 {
        Seq::empty()
    } else {
        let prev = spec_failure_lines(rs.drop_last());
        if rs.last() is Failed {
            prev.push(spec_render_failure(rs.last()))
        } else {
            prev
        }
    }
}

/// There is one report line per broken result.
pub proof fn lemma_failure_lines_len(rs: Seq<CheckModel>)
    ensures
        spec_failure_lines(rs).len() == spec_failures(rs).len(),
    decreases rs.len(),
{
    if rs.len() > 0 {
        lemma_failure_lines_len(rs.drop_last());
    }
}

/// What the operator is shown when the crawl is done: how many pages and
/// links were checked, one line per broken URL, and the overall verdict.
pub struct CrawlSummary {
    pub page_count: usize,
    pub link_count: usize,
    pub failure_lines: Vec<String>,
    pub success: bool,
}

/// Summarizes a finished crawl: the counts of checked pages and links, a
/// report line for every broken URL, and success exactly when there is
/// none.
pub fn summarize_results(state: &State) -> (r: CrawlSummary)
    ensures
        r.page_count == state@.checked_pages.len(),
        r.link_count == state@.checked_links.len(),
        r.failure_lines.deep_view() == spec_failure_lines(state@.check_results),
        r.success == spec_success(state@.check_results),
{
    let ghost rs = state@.check_results;
    let mut failure_lines: Vec<String> = Vec::new();
    let mut i: usize = 0;
    while i < state.check_results.len()
        invariant
            i <= state.check_results@.len(),
            rs == state@.check_results,
            failure_lines.deep_view() == spec_failure_lines(rs.take(i as int)),
        decreases state.check_results@.len() - i,
    {
        proof {
            assert(rs.take(i + 1).drop_last() =~= rs.take(i as int));
            assert(rs.take(i + 1).last() == rs[i as int]);
            assert(rs[i as int] == state.check_results@[i as int]@);
        }
        let c = &state.check_results[i];
        if c.is_failed() {
            let line = render_failure(c);
            failure_lines.push(line);
            proof {
                assert(failure_lines.deep_view() =~= spec_failure_lines(rs.take(i + 1)));
            }
        }
        i = i + 1;
    }
    proof {
        assert(rs.take(state.check_results@.len() as int) =~= rs);
        lemma_failure_lines_len(rs);
    }
    let success = failure_lines.len() == 0;
    CrawlSummary {
        page_count: state.checked_pages.len(),
        link_count: state.checked_links.len(),
        failure_lines,
        success,
    }
}

} // verus!
