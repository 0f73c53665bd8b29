//! The link extractor: given the markup of a fetched page, the set of raw
//! `href` attribute values found on its anchor elements.
//!
//! HTML parsing is done by the `select` crate; this module deduplicates the
//! raw references it hands back, so callers see set semantics. An anchor with
//! a malformed or missing `href` contributes an empty string, which the
//! classifier later discards.

use vstd::prelude::*;

verus! {

use crate::text::vec_contains_string;

/// The raw `href` attribute values of the anchor elements of `body`, in
/// document order, a missing attribute contributing an empty string. The
/// value depends on the markup alone.
pub uninterp spec fn hrefs_of(body: Seq<char>) -> Seq<Seq<char>>;

/// Relies on `select::document::Document` (an html5ever parse of the markup),
/// `Document::find` with the `Name("a")` predicate (the anchor elements, in
/// document order), and `Node::attr` (the `href` attribute value): all are
/// deterministic functions of the markup string.
#[verifier::external_body]
fn extract_hrefs(body: &str) -> (r: Vec<String>)
    ensures
        r.deep_view() == hrefs_of(body@),
{
    let document = select::document::Document::from(body);
    let mut hrefs: Vec<String> = Vec::new();
    for node in document.find(select::predicate::Name("a")) {
        hrefs.push(node.attr("href").unwrap_or("").to_string());
    }
    hrefs
}

/// `s` with every repeated element dropped, keeping first occurrences in
/// order.
pub open spec fn spec_dedup(s: Seq<Seq<char>>) -> Seq<Seq<char>>
    decreases s.len(),
{
    if s.len() == 0 {
        Seq::empty()
    } else {
        let prev = spec_dedup(s.drop_last());
        if prev.contains(s.last()) {
            prev
        } else {
            prev.push(s.last())
        }
    }
}

/// Deduplication keeps exactly the members of `s`, each once.
pub proof fn lemma_dedup_is_set(s: Seq<Seq<char>>)
    ensures
        spec_dedup(s).no_duplicates(),
        forall|x: Seq<char>| spec_dedup(s).contains(x) <==> s.contains(x),
    decreases s.len(),
{
    if s.len() > 0 {
        lemma_dedup_is_set(s.drop_last());
        let prev = spec_dedup(s.drop_last());
        let last = s.last();
        assert forall|x: Seq<char>| s.contains(x) implies spec_dedup(s).contains(x) by {
            let i = choose|i: int| 0 <= i < s.len() && s[i] == x;
            if i < s.len() - 1 {
                assert(s.drop_last()[i] == x);
                assert(s.drop_last().contains(x));
            } else {
                assert(x == last);
            }
            if prev.contains(x) {
                let j = choose|j: int| 0 <= j < prev.len() && prev[j] == x;
                if !prev.contains(last) {
                    assert(prev.push(last)[j] == x);
                }
            } else {
                assert(x == last);
                assert(prev.push(last)[prev.len() as int] == x);
            }
        }
        assert forall|x: Seq<char>| spec_dedup(s).contains(x) implies s.contains(x) by {
            if prev.contains(x) {
                assert(s.drop_last().contains(x));
                let i = choose|i: int| 0 <= i < s.drop_last().len() && s.drop_last()[i] == x;
                assert(s[i] == x);
            } else {
                let j = choose|j: int| 0 <= j < prev.push(last).len() && prev.push(last)[j] == x;
                assert(j == prev.len());
                assert(s[s.len() - 1] == x);
            }
        }
    }
}

/// Drops repeated strings from `v`, keeping first occurrences in order.
pub fn dedup_strings(v: &Vec<String>) -> (r: Vec<String>)
    ensures
        r.deep_view() == spec_dedup(v.deep_view()),
{
    let mut out: Vec<String> = Vec::new();
    let mut i: usize = 0;
    while i < v.len()
        invariant
            i <= v@.len(),
            out.deep_view() == spec_dedup(v.deep_view().take(i as int)),
        decreases v@.len() - i,
    {
        proof {
            assert(v.deep_view().take(i + 1).drop_last() =~= v.deep_view().take(i as int));
            assert(v.deep_view().take(i + 1).last() == v@[i as int]@);
        }
        if !vec_contains_string(&out, &v[i]) {
            out.push(v[i].clone());
            proof {
                assert(out.deep_view() =~= spec_dedup(v.deep_view().take(i + 1)));
            }
        }
        i = i + 1;
    }
    proof {
        assert(v.deep_view().take(v@.len() as int) =~= v.deep_view());
    }
    out
}

/// The set of raw `href` values of the anchor elements of `body`, first
/// occurrences kept in document order.
pub fn collect_hrefs(body: &str) -> (r: Vec<String>)
    ensures
        r.deep_view() == spec_dedup(hrefs_of(body@)),
{
    let raw = extract_hrefs(body);
    dedup_strings(&raw)
}

} // verus!
